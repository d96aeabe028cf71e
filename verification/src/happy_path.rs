//! What resolving a path ends in: the description of an entity that can be
//! reached, or the first obstacle met on the way, with exactly what was
//! known when it was met.
use vstd::prelude::*;
use crate::abs_path::{
    entry_paths,
    holds_location,
    joined,
    same_location,
    AbsPath,
    AbsPathError,
    AbsPathErrorView,
};
use crate::canonical_path::CanonicalPath;
use crate::probe::ProbeError;
use crate::resolved_metadata::ResolvedType;

verus! {

/// A directory that was listed: where it is, what it held when it was
/// listed, and what may likely be done with it.
#[derive(Debug)]
pub struct DirOk {
    pub(crate) absolute: AbsPath,
    pub(crate) canonical: CanonicalPath,
    pub(crate) entries: Vec<AbsPath>,
    pub(crate) read: bool,
    pub(crate) write: bool,
    pub(crate) execute: bool,
}

/// The content of a [`DirOk`].
pub struct DirView {
    pub absolute: Seq<char>,
    pub canonical: Seq<char>,
    pub entries: Seq<Seq<char>>,
    pub read: bool,
    pub write: bool,
    pub execute: bool,
}

impl View for DirOk {
    type V = DirView;

    open(crate) spec fn view(&self) -> DirView {
        DirView {
            absolute: self.absolute@,
            canonical: self.canonical@,
            entries: self.entries.deep_view(),
            read: self.read,
            write: self.write,
            execute: self.execute,
        }
    }
}

impl DeepView for DirOk {
    type V = DirView;

    open spec fn deep_view(&self) -> DirView {
        self@
    }
}

impl Clone for DirOk {
    fn clone(&self) -> (out: Self)
        ensures
            out@ == self@,
    {
        proof {
            use_type_invariant(self);
        }
        let mut entries: Vec<AbsPath> = Vec::new();
        let mut i: usize = 0;
        while i < self.entries.len()
            invariant
                i <= self.entries.len(),
                entries.len() == i,
                forall|j: int| 0 <= j < i ==> entries[j] == self.entries[j],
            decreases self.entries.len() - i,
        {
            entries.push(self.entries[i].clone());
            i = i + 1;
        }
        assert(entries.deep_view() =~= self.entries.deep_view());
        DirOk {
            absolute: self.absolute.clone(),
            canonical: self.canonical.clone(),
            entries,
            read: self.read,
            write: self.write,
            execute: self.execute,
        }
    }
}

impl DirOk {
    /// A directory that was listed can be read, whatever an access check
    /// would say.
    #[verifier::type_invariant]
    spec fn listed(self) -> bool {
        self.read
    }

    /// The directory at `absolute`, from what was observed of it: its
    /// canonical form, the names of its entries, and whether it can likely
    /// be written to and entered. Each entry gets the path that joining its
    /// name to `absolute` gives.
    pub fn new(
        absolute: AbsPath,
        canonical: CanonicalPath,
        names: &Vec<String>,
        write: bool,
        execute: bool,
    ) -> (out: DirOk)
        ensures
            out@ == (DirView {
                absolute: absolute@,
                canonical: canonical@,
                entries: entry_paths(absolute@, names.deep_view()),
                read: true,
                write,
                execute,
            }),
    {
        let mut entries: Vec<AbsPath> = Vec::new();
        let mut i: usize = 0;
        while i < names.len()
            invariant
                i <= names.len(),
                entries.len() == i,
                forall|j: int|
                    0 <= j < i ==> (#[trigger] entries[j])@ == joined(
                        absolute@,
                        names[j]@,
                    ),
            decreases names.len() - i,
        {
            entries.push(absolute.join(names[i].as_str()));
            i = i + 1;
        }
        assert(entries.deep_view() =~= entry_paths(absolute@, names.deep_view()));
        DirOk { absolute, canonical, entries, read: true, write, execute }
    }

    /// Where the directory is.
    pub fn absolute(&self) -> (out: &AbsPath)
        ensures
            out@ == self@.absolute,
    {
        &self.absolute
    }

    /// Where the directory is, all symlinks resolved.
    pub fn canonical(&self) -> (out: &CanonicalPath)
        ensures
            out@ == self@.canonical,
    {
        &self.canonical
    }

    /// The paths of the entries that the directory held when it was
    /// listed.
    pub fn entries(&self) -> (out: &Vec<AbsPath>)
        ensures
            out.deep_view() == self@.entries,
    {
        &self.entries
    }

    /// Whether the directory can be read. It was listed, so it can.
    pub fn read(&self) -> (out: bool)
        ensures
            out,
            out == self@.read,
    {
        proof {
            use_type_invariant(self);
        }
        self.read
    }

    /// Whether entries can likely be added to the directory or taken from
    /// it.
    pub fn write(&self) -> (out: bool)
        ensures
            out == self@.write,
    {
        self.write
    }

    /// Whether the directory can likely be entered.
    pub fn execute(&self) -> (out: bool)
        ensures
            out == self@.execute,
    {
        self.execute
    }

    /// This directory with what was observed of write access to it.
    pub fn with_write(self, write: bool) -> (out: DirOk)
        ensures
            out@ == (DirView { write, ..self@ }),
    {
        proof {
            use_type_invariant(&self);
        }
        DirOk { write, ..self }
    }

    /// This directory with what was observed of execute access to it.
    pub fn with_execute(self, execute: bool) -> (out: DirOk)
        ensures
            out@ == (DirView { execute, ..self@ }),
    {
        proof {
            use_type_invariant(&self);
        }
        DirOk { execute, ..self }
    }

    /// Whether `path` names the location of one of the entries that the
    /// directory held when it was listed.
    pub fn has_entry(&self, path: &AbsPath) -> (found: bool)
        ensures
            found == holds_location(self@.entries, path@),
    {
        let mut i: usize = 0;
        while i < self.entries.len()
            invariant
                i <= self.entries.len(),
                forall|j: int|
                    0 <= j < i ==> !same_location(
                        #[trigger] self.entries.deep_view()[j],
                        path@,
                    ),
            decreases self.entries.len() - i,
        {
            if self.entries[i] == *path {
                assert(same_location(self.entries.deep_view()[i as int], path@));
                return true;
            }
            i = i + 1;
        }
        false
    }
}

/// The path was resolved: what it is and what surrounds it.
#[derive(Debug)]
pub struct HappyPath {
    pub(crate) absolute: AbsPath,
    pub(crate) canonical: CanonicalPath,
    pub(crate) symlink_target: Option<AbsPath>,
    pub(crate) resolved_type: ResolvedType,
    pub(crate) parent: DirOk,
    pub(crate) read: bool,
    pub(crate) write: bool,
    pub(crate) execute: bool,
}

/// The content of a [`HappyPath`].
pub struct HappyView {
    pub absolute: Seq<char>,
    pub canonical: Seq<char>,
    pub symlink_target: Option<Seq<char>>,
    pub resolved_type: ResolvedType,
    pub parent: DirView,
    pub read: bool,
    pub write: bool,
    pub execute: bool,
}

impl View for HappyPath {
    type V = HappyView;

    open(crate) spec fn view(&self) -> HappyView {
        HappyView {
            absolute: self.absolute@,
            canonical: self.canonical@,
            symlink_target: self.symlink_target.deep_view(),
            resolved_type: self.resolved_type,
            parent: self.parent@,
            read: self.read,
            write: self.write,
            execute: self.execute,
        }
    }
}

impl DeepView for HappyPath {
    type V = HappyView;

    open spec fn deep_view(&self) -> HappyView {
        self@
    }
}

impl HappyPath {
    /// The path, made absolute.
    pub fn absolute(&self) -> (out: &AbsPath)
        ensures
            out@ == self@.absolute,
    {
        &self.absolute
    }

    /// The path with all symlinks resolved.
    pub fn canonical(&self) -> (out: &CanonicalPath)
        ensures
            out@ == self@.canonical,
    {
        &self.canonical
    }

    /// Where the path points to, if it is a symlink itself.
    pub fn symlink_target(&self) -> (out: &Option<AbsPath>)
        ensures
            out.deep_view() == self@.symlink_target,
    {
        &self.symlink_target
    }

    /// Whether the path, symlinks followed, is a file or a directory.
    pub fn resolved_type(&self) -> (out: ResolvedType)
        ensures
            out == self@.resolved_type,
    {
        self.resolved_type
    }

    /// The directory that holds the path, as it was listed.
    pub fn parent(&self) -> (out: &DirOk)
        ensures
            out@ == self@.parent,
    {
        &self.parent
    }

    /// Whether the path can likely be read.
    pub fn read(&self) -> (out: bool)
        ensures
            out == self@.read,
    {
        self.read
    }

    /// Whether the path can likely be written to.
    pub fn write(&self) -> (out: bool)
        ensures
            out == self@.write,
    {
        self.write
    }

    /// Whether the path can likely be executed.
    pub fn execute(&self) -> (out: bool)
        ensures
            out == self@.execute,
    {
        self.execute
    }
}

/// The path was not resolved: the first obstacle, with what had been
/// gathered before it.
#[derive(Debug)]
#[allow(inconsistent_fields)]
pub enum UnhappyPath {
    /// The path could not be made absolute.
    AbsPathError(AbsPathError),
    /// The path is the root, which is no entry of any directory.
    IsRoot(AbsPath),
    /// The parent directory could not be listed. Why is left to be found
    /// further up.
    ParentProblem { absolute: AbsPath, parent: AbsPath, error: ProbeError },
    /// The parent directory was listed and the path is not in it.
    DoesNotExist { absolute: AbsPath, parent: DirOk },
    /// The path is in its parent directory but cannot be canonicalized.
    CannotCanonicalize { absolute: AbsPath, parent: DirOk, error: ProbeError },
    /// The path exists but its metadata cannot be read. Happens with read
    /// access to the parent directory but no execute access.
    CannotMetadata {
        absolute: AbsPath,
        canonical: CanonicalPath,
        parent: DirOk,
        error: ProbeError,
    },
    /// The path was reported to be a symlink, but reading the link failed.
    /// Most likely the path changed between the two observations.
    CannotReadLink {
        absolute: AbsPath,
        canonical: CanonicalPath,
        parent: DirOk,
        error: ProbeError,
    },
}

/// The content of an [`UnhappyPath`].
#[allow(inconsistent_fields)]
pub enum UnhappyView {
    AbsPathError(AbsPathErrorView),
    IsRoot(Seq<char>),
    ParentProblem { absolute: Seq<char>, parent: Seq<char>, error: Seq<char> },
    DoesNotExist { absolute: Seq<char>, parent: DirView },
    CannotCanonicalize { absolute: Seq<char>, parent: DirView, error: Seq<char> },
    CannotMetadata { absolute: Seq<char>, canonical: Seq<char>, parent: DirView, error: Seq<char> },
    CannotReadLink { absolute: Seq<char>, canonical: Seq<char>, parent: DirView, error: Seq<char> },
}

impl View for UnhappyPath {
    type V = UnhappyView;

    open spec fn view(&self) -> UnhappyView {
        match self {
            UnhappyPath::AbsPathError(error) => UnhappyView::AbsPathError(error@),
            UnhappyPath::IsRoot(absolute) => UnhappyView::IsRoot(absolute@),
            UnhappyPath::ParentProblem { absolute, parent, error } => UnhappyView::ParentProblem {
                absolute: absolute@,
                parent: parent@,
                error: error@,
            },
            UnhappyPath::DoesNotExist { absolute, parent } => UnhappyView::DoesNotExist {
                absolute: absolute@,
                parent: parent@,
            },
            UnhappyPath::CannotCanonicalize {
                absolute,
                parent,
                error,
            } => UnhappyView::CannotCanonicalize {
                absolute: absolute@,
                parent: parent@,
                error: error@,
            },
            UnhappyPath::CannotMetadata {
                absolute,
                canonical,
                parent,
                error,
            } => UnhappyView::CannotMetadata {
                absolute: absolute@,
                canonical: canonical@,
                parent: parent@,
                error: error@,
            },
            UnhappyPath::CannotReadLink {
                absolute,
                canonical,
                parent,
                error,
            } => UnhappyView::CannotReadLink {
                absolute: absolute@,
                canonical: canonical@,
                parent: parent@,
                error: error@,
            },
        }
    }
}

impl DeepView for UnhappyPath {
    type V = UnhappyView;

    open spec fn deep_view(&self) -> UnhappyView {
        self@
    }
}

} // verus!
