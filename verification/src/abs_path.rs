//! An absolute path may or may not exist on disk.
//!
//! Paths are modelled as sequences of characters in the POSIX syntax: `/`
//! separates components, and empty components and `.` components carry no
//! meaning. Following the parent of an absolute path repeatedly leads to the
//! root, and a directory's path joined with the name of one of its entries is
//! the same location as any other spelling of that entry's path.
use vstd::prelude::*;
use crate::probe::ProbeError;
use crate::text::{chars_of, quote, quoted, result_deep_view};
use vstd::std_specs::cmp::PartialEqSpecImpl;

verus! {

/// A rooted path: its first character is the separator.
pub open spec fn is_absolute(path: Seq<char>) -> bool {
    path.len() > 0 && path[0] == '/'
}

/// `path` without its trailing separators and trailing `.` components. A
/// lone separator, the root, is kept.
pub open spec fn trimmed(path: Seq<char>) -> Seq<char>
    decreases path.len(),
{
    if path.len() == 0 {
        path
    } else if path.last() == '/' {
        if path.len() == 1 {
            path
        } else {
            trimmed(path.drop_last())
        }
    } else if path.last() == '.' && (path.len() == 1 || path[path.len() - 2] == '/') {
        trimmed(path.drop_last())
    } else {
        path
    }
}

/// `path` up to and including its last separator.
pub open spec fn directory_part(path: Seq<char>) -> Seq<char>
    decreases path.len(),
{
    if path.len() > 0 && path.last() != '/' {
        directory_part(path.drop_last())
    } else {
        path
    }
}

/// The characters of `path` after its last separator.
pub open spec fn last_name(path: Seq<char>) -> Seq<char> {
    path.skip(directory_part(path).len() as int)
}

/// A trimmed path that is empty or the root has no component left.
pub open spec fn is_bare(trimmed_path: Seq<char>) -> bool {
    trimmed_path.len() == 0 || trimmed_path =~= seq!['/']
}

/// The meaningful components of `path`, first to last.
pub open spec fn components(path: Seq<char>) -> Seq<Seq<char>>
    decreases path.len(),
    via components_decreases
{
    let t = trimmed(path);
    if is_bare(t) {
        Seq::empty()
    } else {
        components(directory_part(t)).push(last_name(t))
    }
}

#[via_fn]
proof fn components_decreases(path: Seq<char>) {
    let t = trimmed(path);
    if !is_bare(t) {
        lemma_trimmed_is_prefix(path);
        lemma_trimmed_ends_in_name(path);
        lemma_directory_part_is_prefix(t.drop_last());
    }
}

/// The path of the directory that holds `path`, or `None` where `path` has
/// no component: the root.
pub open spec fn parent_of(path: Seq<char>) -> Option<Seq<char>> {
    let t = trimmed(path);
    if is_bare(t) {
        None
    } else {
        Some(trimmed(directory_part(t)))
    }
}

/// The last component of `path`, unless there is none or it is `..`.
pub open spec fn file_name_of(path: Seq<char>) -> Option<Seq<char>> {
    let t = trimmed(path);
    if is_bare(t) || last_name(t) =~= seq!['.', '.'] {
        None
    } else {
        Some(last_name(t))
    }
}

/// `rel` resolved against `base`: an absolute `rel` stands for itself,
/// another is appended after a separator.
pub open spec fn joined(base: Seq<char>, rel: Seq<char>) -> Seq<char> {
    if is_absolute(rel) {
        rel
    } else if base.len() == 0 || base.last() == '/' {
        base + rel
    } else {
        base + seq!['/'] + rel
    }
}

/// Two spellings name the same location when their components agree.
pub open spec fn same_location(a: Seq<char>, b: Seq<char>) -> bool {
    components(a) == components(b)
}

/// What trimming leaves is a prefix of the path, and rooted if the path
/// is.
pub proof fn lemma_trimmed_is_prefix(path: Seq<char>)
    ensures
        trimmed(path).len() <= path.len(),
        trimmed(path) == path.take(trimmed(path).len() as int),
        is_absolute(path) ==> is_absolute(trimmed(path)),
    decreases path.len(),
{
    if path.len() == 0 {
    } else if path.last() == '/' {
        if path.len() > 1 {
            lemma_trimmed_is_prefix(path.drop_last());
        }
    } else if path.last() == '.' && (path.len() == 1 || path[path.len() - 2] == '/') {
        lemma_trimmed_is_prefix(path.drop_last());
    }
}

/// What trimming leaves is bare or ends in a character of a name, and
/// trimming it again changes nothing.
pub proof fn lemma_trimmed_ends_in_name(path: Seq<char>)
    ensures
        !is_bare(trimmed(path)) ==> trimmed(path).len() > 0 && trimmed(path).last() != '/',
        trimmed(trimmed(path)) == trimmed(path),
    decreases path.len(),
{
    if path.len() == 0 {
    } else if path.last() == '/' {
        if path.len() > 1 {
            lemma_trimmed_ends_in_name(path.drop_last());
        }
    } else if path.last() == '.' && (path.len() == 1 || path[path.len() - 2] == '/') {
        lemma_trimmed_ends_in_name(path.drop_last());
    }
}

/// The directory part is a prefix of the path that is empty or ends in a
/// separator, and no separator comes after it.
pub proof fn lemma_directory_part_is_prefix(path: Seq<char>)
    ensures
        directory_part(path).len() <= path.len(),
        directory_part(path) == path.take(directory_part(path).len() as int),
        directory_part(path).len() > 0 ==> directory_part(path).last() == '/',
        forall|i: int| directory_part(path).len() <= i < path.len() ==> path[i] != '/',
        is_absolute(path) ==> is_absolute(directory_part(path)),
    decreases path.len(),
{
    if path.len() > 0 && path.last() != '/' {
        lemma_directory_part_is_prefix(path.drop_last());
        assert forall|i: int| directory_part(path).len() <= i < path.len() implies path[i]
            != '/' by {
            if i < path.len() - 1 {
                assert(path.drop_last()[i] == path[i]);
            }
        }
    }
}

/// The parent of a path is strictly shorter than the path.
pub proof fn lemma_parent_is_shorter(path: Seq<char>)
    ensures
        parent_of(path) matches Some(p) ==> p.len() < path.len() && (is_absolute(path)
            ==> is_absolute(p)),
{
    let t = trimmed(path);
    if !is_bare(t) {
        lemma_trimmed_is_prefix(path);
        lemma_trimmed_ends_in_name(path);
        lemma_directory_part_is_prefix(t.drop_last());
        lemma_directory_part_is_prefix(t);
        lemma_trimmed_is_prefix(directory_part(t));
    }
}


/// Length of what trimming leaves of the first `n` characters.
fn trimmed_len(chars: &Vec<char>, n: usize) -> (len: usize)
    requires
        n <= chars.len(),
    ensures
        len <= n,
        chars@.take(len as int) == trimmed(chars@.take(n as int)),
{
    let mut i: usize = n;
    loop
        invariant
            i <= n <= chars.len(),
            trimmed(chars@.take(i as int)) == trimmed(chars@.take(n as int)),
        ensures
            i <= n,
            chars@.take(i as int) == trimmed(chars@.take(n as int)),
        decreases i,
    {
        if i == 0 {
            break ;
        }
        let c = chars[i - 1];
        if c == '/' {
            if i == 1 {
                break ;
            }
        } else if c == '.' && (i == 1 || chars[i - 2] == '/') {
        } else {
            break ;
        }
        proof {
            assert(chars@.take(i as int).drop_last() =~= chars@.take(i - 1));
        }
        i = i - 1;
    }
    i
}

/// Length of the directory part of the first `n` characters.
fn directory_len(chars: &Vec<char>, n: usize) -> (len: usize)
    requires
        n <= chars.len(),
    ensures
        len <= n,
        chars@.take(len as int) == directory_part(chars@.take(n as int)),
{
    let mut i: usize = n;
    while i > 0 && chars[i - 1] != '/'
        invariant
            i <= n <= chars.len(),
            directory_part(chars@.take(i as int)) == directory_part(chars@.take(n as int)),
        decreases i,
    {
        proof {
            assert(chars@.take(i as int).drop_last() =~= chars@.take(i - 1));
        }
        i = i - 1;
    }
    i
}

/// Whether the first `n` characters are empty or the root alone.
fn bare(chars: &Vec<char>, n: usize) -> (out: bool)
    requires
        n <= chars.len(),
    ensures
        out == is_bare(chars@.take(n as int)),
{
    proof {
        if n == 1 {
            assert(chars@.take(n as int)[0] == chars@[0]);
        }
    }
    n == 0 || (n == 1 && chars[0] == '/')
}

/// The meaningful components of `path`, first to last.
pub fn components_of(path: &str) -> (names: Vec<String>)
    ensures
        names.deep_view() == components(path@),
{
    let chars = chars_of(path);
    let mut names: Vec<String> = Vec::new();
    let mut end: usize = chars.len();
    assert(chars@.take(end as int) =~= path@);
    loop
        invariant
            chars@ == path@,
            end <= chars.len(),
            components(path@) == components(chars@.take(end as int)) + names.deep_view(),
        ensures
            names.deep_view() == components(path@),
        decreases end,
    {
        let t = trimmed_len(&chars, end);
        if bare(&chars, t) {
            break ;
        }
        let d = directory_len(&chars, t);
        let name = path.substring_char(d, t).to_owned();
        proof {
            let whole = chars@.take(end as int);
            let kept = chars@.take(t as int);
            lemma_trimmed_ends_in_name(whole);
            lemma_directory_part_is_prefix(kept.drop_last());
            assert(last_name(kept) =~= path@.subrange(d as int, t as int));
            assert(components(whole) == components(chars@.take(d as int)).push(name@));
        }
        let ghost before = names.deep_view();
        names.insert(0, name);
        assert(names.deep_view() =~= seq![name@] + before);
        assert(components(chars@.take(d as int)).push(name@) + before =~= components(
            chars@.take(d as int),
        ) + names.deep_view());
        end = d;
    }
    names
}

/// Whether two spellings name the same location.
pub fn same_place(a: &str, b: &str) -> (same: bool)
    ensures
        same == same_location(a@, b@),
{
    let left = components_of(a);
    let right = components_of(b);
    if left.len() != right.len() {
        assert(left.deep_view().len() != right.deep_view().len());
        return false;
    }
    let mut i: usize = 0;
    while i < left.len()
        invariant
            i <= left.len() == right.len(),
            left.deep_view() == components(a@),
            right.deep_view() == components(b@),
            forall|j: int| 0 <= j < i ==> left.deep_view()[j] == right.deep_view()[j],
        decreases left.len() - i,
    {
        if left[i] != right[i] {
            assert(left.deep_view()[i as int] != right.deep_view()[i as int]);
            return false;
        }
        i = i + 1;
    }
    assert(left.deep_view() =~= right.deep_view());
    true
}

/// `base` with each of `names` appended in turn.
pub open spec fn pushed_all(base: Seq<char>, names: Seq<Seq<char>>) -> Seq<char>
    decreases names.len(),
{
    if names.len() == 0 {
        base
    } else {
        joined(pushed_all(base, names.drop_last()), names.last())
    }
}

/// A relative `path` resolved against the working directory `cwd`: its
/// components appended to `cwd`, and a trailing separator kept.
pub open spec fn absolutized(cwd: Seq<char>, path: Seq<char>) -> Seq<char> {
    let body = pushed_all(cwd, components(path));
    if path.len() > 0 && path.last() == '/' {
        joined(body, Seq::empty())
    } else {
        body
    }
}

/// A path made absolute against an absolute working directory is absolute.
pub proof fn lemma_absolutized_is_absolute(cwd: Seq<char>, path: Seq<char>)
    requires
        is_absolute(cwd),
    ensures
        is_absolute(absolutized(cwd, path)),
{
    lemma_pushed_all_is_absolute(cwd, components(path));
}

/// Appending names to a rooted path leaves it rooted.
proof fn lemma_pushed_all_is_absolute(base: Seq<char>, names: Seq<Seq<char>>)
    requires
        is_absolute(base),
    ensures
        is_absolute(pushed_all(base, names)),
    decreases names.len(),
{
    if names.len() > 0 {
        lemma_pushed_all_is_absolute(base, names.drop_last());
    }
}

/// The directories above `path`, from its parent up to the root.
pub open spec fn ancestors(path: Seq<char>) -> Seq<Seq<char>>
    decreases path.len(),
    via ancestors_decreases
{
    match parent_of(path) {
        None => Seq::empty(),
        Some(p) => seq![p] + ancestors(p),
    }
}

#[via_fn]
proof fn ancestors_decreases(path: Seq<char>) {
    lemma_parent_is_shorter(path);
}

/// The last of the directories above `path`, or `path` itself where it has
/// no parent.
pub open spec fn root_of(path: Seq<char>) -> Seq<char>
    decreases path.len(),
    via root_of_decreases
{
    match parent_of(path) {
        None => path,
        Some(p) => root_of(p),
    }
}

#[via_fn]
proof fn root_of_decreases(path: Seq<char>) {
    lemma_parent_is_shorter(path);
}

/// The paths of a directory's entries: each name joined to the directory.
pub open spec fn entry_paths(dir: Seq<char>, names: Seq<Seq<char>>) -> Seq<Seq<char>> {
    Seq::new(names.len(), |i: int| joined(dir, names[i]))
}

/// Whether one of `entries` names the location that `path` names.
pub open spec fn holds_location(entries: Seq<Seq<char>>, path: Seq<char>) -> bool {
    exists|i: int| 0 <= i < entries.len() && same_location(#[trigger] entries[i], path)
}

/// A name as a directory lists it: not empty, without a separator, and
/// neither `.` nor `..`.
pub open spec fn is_entry_name(name: Seq<char>) -> bool {
    &&& name.len() > 0
    &&& forall|i: int| 0 <= i < name.len() ==> name[i] != '/'
    &&& !(name =~= seq!['.'])
    &&& !(name =~= seq!['.', '.'])
}

/// The path reached from `path` by taking the parent `n` times, or `None`
/// where the root was passed on the way.
pub open spec fn nth_parent(path: Seq<char>, n: nat) -> Option<Seq<char>>
    decreases n,
{
    if n == 0 {
        Some(path)
    } else {
        match nth_parent(path, (n - 1) as nat) {
            Some(p) => parent_of(p),
            None => None,
        }
    }
}

/// Every component is a name: it is not empty, holds no separator, and is
/// not `.`.
pub proof fn law_components_are_names(path: Seq<char>, i: int)
    requires
        0 <= i < components(path).len(),
    ensures
        components(path)[i].len() > 0,
        forall|k: int| 0 <= k < components(path)[i].len() ==> components(path)[i][k] != '/',
        !(components(path)[i] =~= seq!['.']),
    decreases path.len(),
{
    let t = trimmed(path);
    lemma_trimmed_is_prefix(path);
    lemma_trimmed_ends_in_name(path);
    lemma_directory_part_is_prefix(t);
    lemma_directory_part_is_prefix(t.drop_last());
    let dir = directory_part(t);
    if i < components(dir).len() {
        law_components_are_names(dir, i);
    } else {
        let name = last_name(t);
        assert(name.len() == t.len() - dir.len());
        assert forall|k: int| 0 <= k < name.len() implies name[k] != '/' by {
            assert(name[k] == t[dir.len() + k]);
        }
        if name =~= seq!['.'] {
            assert(t.last() == name[0]);
            if t.len() >= 2 {
                assert(dir.last() == t[t.len() - 2]);
            }
        }
    }
}

/// The parent of a path has the components of the path but the last, and
/// only a path without components has no parent.
pub proof fn lemma_parent_drops_last_component(path: Seq<char>)
    ensures
        match parent_of(path) {
            None => components(path).len() == 0,
            Some(p) => components(path).len() > 0 && components(p) == components(
                path,
            ).drop_last(),
        },
{
    let t = trimmed(path);
    if !is_bare(t) {
        let dir = directory_part(t);
        lemma_trimmed_ends_in_name(dir);
        assert(components(trimmed(dir)) == components(dir));
        assert(components(dir).push(last_name(t)).drop_last() =~= components(dir));
    }
}

/// A name appended behind a separator is all that follows the directory
/// part.
proof fn lemma_directory_part_of_appended(dir: Seq<char>, name: Seq<char>)
    requires
        dir.len() == 0 || dir.last() == '/',
        forall|i: int| 0 <= i < name.len() ==> name[i] != '/',
    ensures
        directory_part(dir + name) == dir,
    decreases name.len(),
{
    if name.len() == 0 {
        assert(dir + name =~= dir);
    } else {
        assert((dir + name).drop_last() =~= dir + name.drop_last());
        lemma_directory_part_of_appended(dir, name.drop_last());
    }
}

/// Joining the name of an entry to a directory adds that name as the last
/// component.
pub proof fn lemma_joined_adds_component(dir: Seq<char>, name: Seq<char>)
    requires
        dir.len() > 0,
        is_entry_name(name),
    ensures
        components(joined(dir, name)) == components(dir).push(name),
{
    let base = if dir.last() == '/' {
        dir
    } else {
        dir + seq!['/']
    };
    let whole = joined(dir, name);
    assert(whole =~= base + name);
    assert(whole.last() == name.last());
    if name.len() >= 2 {
        assert(whole[whole.len() - 2] == name[name.len() - 2]);
    }
    assert(trimmed(whole) == whole);
    lemma_directory_part_of_appended(base, name);
    assert(last_name(whole) =~= name);
    if dir.last() != '/' {
        assert(base.drop_last() =~= dir);
        assert(trimmed(base) == trimmed(dir));
    }
    assert(components(base) == components(dir));
}

/// Taking the parent `n` times drops the last `n` components, as long as
/// there are that many.
proof fn lemma_nth_parent(path: Seq<char>, n: nat)
    ensures
        n <= components(path).len() ==> nth_parent(path, n) is Some && components(
            nth_parent(path, n)->0,
        ) == components(path).take(components(path).len() - n) && nth_parent(path, n)->0.len() + n
            <= path.len(),
        n > components(path).len() ==> nth_parent(path, n) is None,
    decreases n,
{
    let depth = components(path).len();
    if n == 0 {
        assert(components(path).take(depth as int) =~= components(path));
    } else {
        lemma_nth_parent(path, (n - 1) as nat);
        if n - 1 <= depth {
            let q = nth_parent(path, (n - 1) as nat)->0;
            lemma_parent_drops_last_component(q);
            lemma_parent_is_shorter(q);
            if n <= depth {
                assert(components(path).take(depth - (n - 1)).drop_last() =~= components(
                    path,
                ).take(depth - n));
            }
        }
    }
}

/// Taking the parent again and again ends: a path with `d` components has a
/// parent exactly `d` times over, each strictly shorter than the one before,
/// and what is reached then, the root, has none.
pub proof fn law_parents_end_at_root(path: Seq<char>)
    ensures
        components(path).len() <= path.len(),
        forall|n: nat| n <= components(path).len() ==> (#[trigger] nth_parent(path, n)) is Some,
        forall|n: nat| n > components(path).len() ==> (#[trigger] nth_parent(path, n)) is None,
        forall|n: nat|
            0 < n <= components(path).len() ==> (#[trigger] nth_parent(path, n))->0.len()
                < nth_parent(path, (n - 1) as nat)->0.len(),
        ancestors(path).len() == components(path).len(),
        parent_of(root_of(path)) is None,
{
    lemma_nth_parent(path, components(path).len());
    assert forall|n: nat| n <= components(path).len() implies (#[trigger] nth_parent(
        path,
        n,
    )) is Some by {
        lemma_nth_parent(path, n);
    }
    assert forall|n: nat| n > components(path).len() implies (#[trigger] nth_parent(
        path,
        n,
    )) is None by {
        lemma_nth_parent(path, n);
    }
    assert forall|n: nat| 0 < n <= components(path).len() implies (#[trigger] nth_parent(
        path,
        n,
    ))->0.len() < nth_parent(path, (n - 1) as nat)->0.len() by {
        lemma_nth_parent(path, (n - 1) as nat);
        lemma_parent_is_shorter(nth_parent(path, (n - 1) as nat)->0);
    }
    lemma_ancestors(path);
}

/// A path has as many directories above it as it has components, and the
/// last of them is the root.
proof fn lemma_ancestors(path: Seq<char>)
    ensures
        ancestors(path).len() == components(path).len(),
        parent_of(root_of(path)) is None,
    decreases path.len(),
{
    lemma_parent_drops_last_component(path);
    lemma_parent_is_shorter(path);
    if let Some(p) = parent_of(path) {
        lemma_ancestors(p);
    }
}

/// A directory's listing and the identity of a path agree: a path whose
/// parent is the directory is found among the directory's entries exactly
/// when its file name is among the names listed.
pub proof fn law_listing_agrees_with_identity(
    dir: Seq<char>,
    names: Seq<Seq<char>>,
    path: Seq<char>,
)
    requires
        is_absolute(dir),
        forall|i: int| 0 <= i < names.len() ==> is_entry_name(#[trigger] names[i]),
        parent_of(path) matches Some(p) && same_location(p, dir),
    ensures
        holds_location(entry_paths(dir, names), path) <==> (file_name_of(path) matches Some(name)
            && names.contains(name)),
{
    let entries = entry_paths(dir, names);
    let t = trimmed(path);
    let last = last_name(t);
    lemma_parent_drops_last_component(path);
    assert(components(path) == components(dir).push(last)) by {
        assert(components(path).drop_last().push(components(path).last()) =~= components(path));
    }
    assert forall|i: int| 0 <= i < names.len() implies (same_location(#[trigger] entries[i], path)
        <==> names[i] == last) by {
        lemma_joined_adds_component(dir, names[i]);
        let a = components(dir).push(names[i]);
        let b = components(dir).push(last);
        assert(a.last() == names[i]);
        assert(b.last() == last);
    }
    if holds_location(entries, path) {
        let i = choose|i: int| 0 <= i < entries.len() && same_location(#[trigger] entries[i], path);
        assert(names[i] == last);
    }
    if file_name_of(path) matches Some(name) && names.contains(name) {
        let i = choose|i: int| 0 <= i < names.len() && names[i] == last;
        assert(same_location(entries[i], path));
    }
}

/// What making a path absolute gives: the path itself where it is rooted,
/// else the path resolved against the working directory, which must have
/// been read.
pub open spec fn absolute_form(path: Seq<char>, cwd: Result<Seq<char>, Seq<char>>) -> Result<
    Seq<char>,
    AbsPathErrorView,
> {
    if path.len() == 0 {
        Err(AbsPathErrorView::PathIsEmpty(path))
    } else if is_absolute(path) {
        Ok(path)
    } else {
        match cwd {
            Ok(dir) => Ok(absolutized(dir, path)),
            Err(error) => Err(AbsPathErrorView::CannotReadCWD(path, error)),
        }
    }
}

/// A path that is syntactically absolute. It need not exist.
#[derive(Debug)]
pub struct AbsPath {
    path: String,
}

impl View for AbsPath {
    type V = Seq<char>;

    closed spec fn view(&self) -> Seq<char> {
        self.path@
    }
}

impl DeepView for AbsPath {
    type V = Seq<char>;

    open spec fn deep_view(&self) -> Seq<char> {
        self@
    }
}

impl Clone for AbsPath {
    fn clone(&self) -> (out: Self)
        ensures
            out == *self,
    {
        proof {
            use_type_invariant(self);
        }
        AbsPath { path: self.path.clone() }
    }
}

impl PartialEq for AbsPath {
    /// Paths are equal when they name the same location, however spelled.
    fn eq(&self, other: &Self) -> (same: bool) {
        same_place(self.path.as_str(), other.path.as_str())
    }
}

impl PartialEqSpecImpl for AbsPath {
    open spec fn obeys_eq_spec() -> bool {
        true
    }

    open spec fn eq_spec(&self, other: &Self) -> bool {
        same_location(self@, other@)
    }
}

impl AbsPath {
    /// Every absolute path is rooted.
    #[verifier::type_invariant]
    pub open spec fn rooted(self) -> bool {
        is_absolute(self@)
    }

    /// Takes a path that is rooted as it stands; there is `None` for any
    /// other.
    pub fn from_rooted(path: &str) -> (out: Option<AbsPath>)
        ensures
            out.deep_view() == (if is_absolute(path@) {
                Some(path@)
            } else {
                None
            }),
    {
        if !path.is_empty() && path.get_char(0) == '/' {
            Some(AbsPath { path: path.to_owned() })
        } else {
            None
        }
    }

    /// Makes `path` absolute. A rooted path is taken as it stands and `cwd`
    /// is not looked at; a relative one is resolved against `cwd`, the
    /// outcome of reading the working directory.
    pub fn new(path: &str, cwd: &Result<AbsPath, ProbeError>) -> (out: Result<
        AbsPath,
        AbsPathError,
    >)
        ensures
            result_deep_view(out) == absolute_form(path@, result_deep_view(*cwd)),
            out matches Ok(p) ==> is_absolute(p@),
    {
        if path.is_empty() {
            return Err(AbsPathError::PathIsEmpty(path.to_owned()));
        }
        if let Some(rooted) = AbsPath::from_rooted(path) {
            return Ok(rooted);
        }
        match cwd {
            Err(error) => Err(AbsPathError::CannotReadCWD(path.to_owned(), error.clone())),
            Ok(dir) => {
                let names = components_of(path);
                let mut out = dir.clone();
                let mut i: usize = 0;
                while i < names.len()
                    invariant
                        i <= names.len(),
                        out@ == pushed_all(dir@, names.deep_view().take(i as int)),
                    decreases names.len() - i,
                {
                    out = out.join(names[i].as_str());
                    proof {
                        let upto = names.deep_view().take(i + 1);
                        assert(upto.drop_last() =~= names.deep_view().take(i as int));
                        assert(upto.last() == names[i as int]@);
                    }
                    i = i + 1;
                }
                assert(names.deep_view().take(i as int) =~= names.deep_view());
                if path.get_char(path.unicode_len() - 1) == '/' {
                    out = out.join("");
                    proof {
                        reveal_strlit("");
                        assert(""@ =~= Seq::<char>::empty());
                    }
                }
                proof {
                    use_type_invariant(&out);
                }
                Ok(out)
            },
        }
    }

    /// The path as it is spelled.
    pub fn as_str(&self) -> (out: &str)
        ensures
            out@ == self@,
            is_absolute(out@),
    {
        proof {
            use_type_invariant(self);
        }
        self.path.as_str()
    }

    /// The path between backticks, as reports show it.
    pub fn display(&self) -> (out: String)
        ensures
            out@ == quoted(self@),
    {
        quote(self.path.as_str())
    }

    /// `rel` resolved against this path.
    pub fn join(&self, rel: &str) -> (out: AbsPath)
        ensures
            out@ == joined(self@, rel@),
    {
        proof {
            use_type_invariant(self);
        }
        if !rel.is_empty() && rel.get_char(0) == '/' {
            return AbsPath { path: rel.to_owned() };
        }
        let mut path = self.path.clone();
        let n = self.path.as_str().unicode_len();
        if self.path.as_str().get_char(n - 1) != '/' {
            proof {
                reveal_strlit("/");
                assert("/"@ =~= seq!['/']);
            }
            path.append("/");
        }
        path.append(rel);
        AbsPath { path }
    }

    /// Similar to the parent of any path, but `None` here guarantees that
    /// this is the root.
    pub fn parent(&self) -> (out: Option<AbsPath>)
        ensures
            out.deep_view() == parent_of(self@),
    {
        let chars = chars_of(self.path.as_str());
        let t = trimmed_len(&chars, chars.len());
        assert(chars@.take(chars.len() as int) =~= self@);
        if bare(&chars, t) {
            return None;
        }
        let d = directory_len(&chars, t);
        let p = trimmed_len(&chars, d);
        proof {
            use_type_invariant(self);
            lemma_parent_is_shorter(self@);
        }
        Some(AbsPath { path: self.path.as_str().substring_char(0, p).to_owned() })
    }

    /// The directories above this path, nearest first.
    pub fn each_parent(&self) -> (out: AbsParentDirs)
        ensures
            out@ == ancestors(self@),
    {
        AbsParentDirs { current: self.parent() }
    }

    /// The last of the directories above this path: the root.
    pub fn root(&self) -> (out: AbsPath)
        ensures
            out@ == root_of(self@),
    {
        let mut last = self.clone();
        let mut walk = self.each_parent();
        loop
            invariant
                walk@ == ancestors(last@),
                root_of(last@) == root_of(self@),
            ensures
                last@ == root_of(self@),
            decreases walk@.len(),
        {
            match walk.next() {
                Some(p) => {
                    last = p;
                },
                None => {
                    break ;
                },
            }
        }
        last
    }

    /// The paths of the entries of this directory, from the outcome of
    /// listing their names: each name joined to this path, in the order
    /// listed.
    pub fn read_dir(&self, listing: Result<Vec<String>, ProbeError>) -> (out: Result<
        Vec<AbsPath>,
        ProbeError,
    >)
        ensures
            match listing {
                Ok(names) => out matches Ok(entries) && entries.deep_view() == entry_paths(
                    self@,
                    names.deep_view(),
                ),
                Err(error) => out matches Err(e) && e@ == error@,
            },
    {
        match listing {
            Err(error) => Err(error),
            Ok(names) => {
                let mut entries: Vec<AbsPath> = Vec::new();
                let mut i: usize = 0;
                while i < names.len()
                    invariant
                        i <= names.len(),
                        entries.len() == i,
                        forall|j: int|
                            0 <= j < i ==> (#[trigger] entries[j])@ == joined(self@, names[j]@),
                    decreases names.len() - i,
                {
                    entries.push(self.join(names[i].as_str()));
                    i = i + 1;
                }
                assert(entries.deep_view() =~= entry_paths(self@, names.deep_view()));
                Ok(entries)
            },
        }
    }

    /// The last component of this path, unless it is `..` or missing.
    pub fn file_name(&self) -> (out: Option<String>)
        ensures
            out.deep_view() == file_name_of(self@),
    {
        file_name(self.path.as_str())
    }
}

/// The last component of `path`, unless it is `..` or missing.
pub fn file_name(path: &str) -> (out: Option<String>)
    ensures
        out.deep_view() == file_name_of(path@),
{
    let chars = chars_of(path);
    let t = trimmed_len(&chars, chars.len());
    assert(chars@.take(chars.len() as int) =~= path@);
    if bare(&chars, t) {
        return None;
    }
    let d = directory_len(&chars, t);
    proof {
        let kept = chars@.take(t as int);
        assert(last_name(kept) =~= path@.subrange(d as int, t as int));
        if t - d == 2 {
            assert(path@.subrange(d as int, t as int)[0] == chars@[d as int]);
            assert(path@.subrange(d as int, t as int)[1] == chars@[d + 1]);
        }
    }
    if t - d == 2 && chars[d] == '.' && chars[d + 1] == '.' {
        return None;
    }
    Some(path.substring_char(d, t).to_owned())
}

/// The target of a symbolic link, from what was observed of it: `None` where
/// the path is no link, else the outcome of reading the link. A relative
/// target is resolved against the path of the link.
pub fn try_readlink(absolute: &AbsPath, link: Option<Result<String, ProbeError>>) -> (out: Result<
    Option<AbsPath>,
    ProbeError,
>)
    ensures
        match link {
            None => out matches Ok(None),
            Some(Ok(target)) => out matches Ok(Some(p)) && p@ == joined(absolute@, target@),
            Some(Err(error)) => out matches Err(e) && e@ == error@,
        },
{
    match link {
        None => Ok(None),
        Some(Ok(target)) => Ok(Some(absolute.join(target.as_str()))),
        Some(Err(error)) => Err(error),
    }
}

/// A walk over the directories above a path, from its parent up to the
/// root.
pub struct AbsParentDirs {
    current: Option<AbsPath>,
}

impl View for AbsParentDirs {
    type V = Seq<Seq<char>>;

    /// The directories still to come.
    closed spec fn view(&self) -> Seq<Seq<char>> {
        match self.current {
            None => Seq::empty(),
            Some(p) => seq![p@] + ancestors(p@),
        }
    }
}

impl AbsParentDirs {
    /// Hands out the nearest directory still to come and moves on to its
    /// parent.
    pub fn next(&mut self) -> (out: Option<AbsPath>)
        ensures
            match out {
                Some(p) => old(self)@.len() > 0 && p@ == old(self)@[0] && final(self)@ == old(
                    self,
                )@.drop_first(),
                None => old(self)@.len() == 0 && final(self)@ == old(self)@,
            },
    {
        match self.current.take() {
            Some(current) => {
                self.current = current.parent();
                assert(final(self)@ =~= old(self)@.drop_first());
                Some(current)
            },
            None => None,
        }
    }
}

/// Why a path could not be made absolute.
#[derive(Debug)]
pub enum AbsPathError {
    /// The path given was empty.
    PathIsEmpty(String),
    /// The path given was relative and the working directory could not be
    /// read.
    CannotReadCWD(String, ProbeError),
}

/// The content of an [`AbsPathError`].
pub enum AbsPathErrorView {
    PathIsEmpty(Seq<char>),
    CannotReadCWD(Seq<char>, Seq<char>),
}

impl View for AbsPathError {
    type V = AbsPathErrorView;

    open spec fn view(&self) -> AbsPathErrorView {
        match self {
            AbsPathError::PathIsEmpty(path) => AbsPathErrorView::PathIsEmpty(path@),
            AbsPathError::CannotReadCWD(path, error) => AbsPathErrorView::CannotReadCWD(
                path@,
                error@,
            ),
        }
    }
}

impl DeepView for AbsPathError {
    type V = AbsPathErrorView;

    open spec fn deep_view(&self) -> AbsPathErrorView {
        self@
    }
}

impl AbsPathErrorView {
    /// The path that was given.
    pub open spec fn path(self) -> Seq<char> {
        match self {
            AbsPathErrorView::PathIsEmpty(path) => path,
            AbsPathErrorView::CannotReadCWD(path, _) => path,
        }
    }
}

impl AbsPathError {
    /// The path that was given.
    pub fn path(&self) -> (out: &str)
        ensures
            out@ == self@.path(),
    {
        match self {
            AbsPathError::PathIsEmpty(path) => path.as_str(),
            AbsPathError::CannotReadCWD(path, _) => path.as_str(),
        }
    }
}

} // verus!
