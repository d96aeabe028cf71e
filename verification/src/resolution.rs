//! Resolving a path, one observation at a time.
//!
//! A resolution never looks at the filesystem itself. It says which
//! observation it needs next, takes the answer, and goes on until it can
//! name the outcome: each obstacle is classified with what was gathered
//! before it, and nothing is asked again.
use vstd::prelude::*;
use crate::abs_path::{
    absolute_form,
    entry_paths,
    holds_location,
    is_absolute,
    joined,
    parent_of,
    try_readlink,
    AbsPath,
    AbsPathError,
    AbsPathErrorView,
};
use crate::canonical_path::CanonicalPath;
use crate::happy_path::{DirOk, DirView, HappyPath, HappyView, UnhappyPath, UnhappyView};
use crate::probe::{AccessMode, Answer, AnswerView, Probe, ProbeView};
use crate::resolved_metadata::{ResolvedMetadata, ResolvedType};
use crate::text::result_deep_view;

verus! {

/// A resolution under way: what has been gathered so far, and with it the
/// observation that is needed next, or the outcome.
#[derive(Debug)]
pub struct Resolution {
    stage: Stage,
}

#[derive(Debug)]
#[allow(inconsistent_fields)]
enum Stage {
    /// The path is relative: the working directory is needed.
    WorkingDirectory { path: String },
    /// The canonical form of the parent directory is needed.
    ParentCanonical { absolute: AbsPath, parent: AbsPath },
    /// The names in the parent directory are needed.
    ParentListing { absolute: AbsPath, parent: AbsPath, canonical: CanonicalPath },
    /// Whether the parent directory can be written to is needed.
    ParentWrite { absolute: AbsPath, parent: DirOk },
    /// Whether the parent directory can be entered is needed.
    ParentExecute { absolute: AbsPath, parent: DirOk },
    /// The canonical form of the path is needed.
    Canonical { absolute: AbsPath, parent: DirOk },
    /// The metadata of the path is needed.
    Metadata { absolute: AbsPath, parent: DirOk, canonical: CanonicalPath },
    /// Whether the path is a symlink is needed.
    IsSymlink { found: HappyPath },
    /// The target of the symlink at the path is needed.
    LinkTarget { found: HappyPath },
    /// Whether the path can be accessed in one way is needed; the ways
    /// before it have been asked about.
    Access { found: HappyPath, mode: AccessMode },
    /// Nothing more is needed.
    Done(Result<HappyPath, UnhappyPath>),
}

/// The content of a [`Resolution`].
#[allow(inconsistent_fields)]
pub enum ResolutionView {
    WorkingDirectory { path: Seq<char> },
    ParentCanonical { absolute: Seq<char>, parent: Seq<char> },
    ParentListing { absolute: Seq<char>, parent: Seq<char>, canonical: Seq<char> },
    ParentWrite { absolute: Seq<char>, parent: DirView },
    ParentExecute { absolute: Seq<char>, parent: DirView },
    Canonical { absolute: Seq<char>, parent: DirView },
    Metadata { absolute: Seq<char>, parent: DirView, canonical: Seq<char> },
    IsSymlink { found: HappyView },
    LinkTarget { found: HappyView },
    Access { found: HappyView, mode: AccessMode },
    Done(Result<HappyView, UnhappyView>),
}

impl View for Resolution {
    type V = ResolutionView;

    closed spec fn view(&self) -> ResolutionView {
        self.stage.shape()
    }
}

impl Stage {
    spec fn shape(&self) -> ResolutionView {
        match self {
            Stage::WorkingDirectory { path } => ResolutionView::WorkingDirectory {
                path: path@,
            },
            Stage::ParentCanonical { absolute, parent } => ResolutionView::ParentCanonical {
                absolute: absolute@,
                parent: parent@,
            },
            Stage::ParentListing {
                absolute,
                parent,
                canonical,
            } => ResolutionView::ParentListing {
                absolute: absolute@,
                parent: parent@,
                canonical: canonical@,
            },
            Stage::ParentWrite { absolute, parent } => ResolutionView::ParentWrite {
                absolute: absolute@,
                parent: parent@,
            },
            Stage::ParentExecute { absolute, parent } => ResolutionView::ParentExecute {
                absolute: absolute@,
                parent: parent@,
            },
            Stage::Canonical { absolute, parent } => ResolutionView::Canonical {
                absolute: absolute@,
                parent: parent@,
            },
            Stage::Metadata { absolute, parent, canonical } => ResolutionView::Metadata {
                absolute: absolute@,
                parent: parent@,
                canonical: canonical@,
            },
            Stage::IsSymlink { found } => ResolutionView::IsSymlink { found: found@ },
            Stage::LinkTarget { found } => ResolutionView::LinkTarget { found: found@ },
            Stage::Access { found, mode } => ResolutionView::Access {
                found: found@,
                mode: *mode,
            },
            Stage::Done(outcome) => ResolutionView::Done(
                result_deep_view(*outcome),
            ),
        }
    }
}

/// Where a resolution stands once the path is absolute: done if the path
/// is the root, else in need of the parent directory.
pub open spec fn located(absolute: Seq<char>) -> ResolutionView {
    match parent_of(absolute) {
        None => ResolutionView::Done(Err(UnhappyView::IsRoot(absolute))),
        Some(parent) => ResolutionView::ParentCanonical { absolute, parent },
    }
}

/// Where the resolution of `path` starts: done for an empty path, in need
/// of the working directory for a relative one.
pub open spec fn started(path: Seq<char>) -> ResolutionView {
    if path.len() == 0 {
        ResolutionView::Done(
            Err(UnhappyView::AbsPathError(AbsPathErrorView::PathIsEmpty(path))),
        )
    } else if is_absolute(path) {
        located(path)
    } else {
        ResolutionView::WorkingDirectory { path }
    }
}

/// The observation that a resolution needs next.
pub open spec fn awaited(state: ResolutionView) -> Option<ProbeView> {
    match state {
        ResolutionView::WorkingDirectory { .. } => Some(ProbeView::WorkingDirectory),
        ResolutionView::ParentCanonical { parent, .. } => Some(ProbeView::Canonicalize(parent)),
        ResolutionView::ParentListing { parent, .. } => Some(ProbeView::ListDirectory(parent)),
        ResolutionView::ParentWrite { parent, .. } => Some(
            ProbeView::Access(parent.canonical, AccessMode::Write),
        ),
        ResolutionView::ParentExecute { parent, .. } => Some(
            ProbeView::Access(parent.canonical, AccessMode::Execute),
        ),
        ResolutionView::Canonical { absolute, .. } => Some(ProbeView::Canonicalize(absolute)),
        ResolutionView::Metadata { absolute, .. } => Some(ProbeView::Metadata(absolute)),
        ResolutionView::IsSymlink { found } => Some(ProbeView::IsSymlink(found.absolute)),
        ResolutionView::LinkTarget { found } => Some(ProbeView::ReadLink(found.absolute)),
        ResolutionView::Access { found, mode } => Some(ProbeView::Access(found.canonical, mode)),
        ResolutionView::Done(_) => None,
    }
}

/// Whether `answer` is of the kind that `state` is waiting for.
pub open spec fn fits(state: ResolutionView, answer: AnswerView) -> bool {
    match state {
        ResolutionView::WorkingDirectory { .. } => answer is WorkingDirectory,
        ResolutionView::ParentCanonical { .. } => answer is Canonical,
        ResolutionView::ParentListing { .. } => answer is Listing,
        ResolutionView::ParentWrite { .. } => answer is Access,
        ResolutionView::ParentExecute { .. } => answer is Access,
        ResolutionView::Canonical { .. } => answer is Canonical,
        ResolutionView::Metadata { .. } => answer is Metadata,
        ResolutionView::IsSymlink { .. } => answer is IsSymlink,
        ResolutionView::LinkTarget { .. } => answer is LinkTarget,
        ResolutionView::Access { .. } => answer is Access,
        ResolutionView::Done(_) => false,
    }
}

/// Where a resolution stands after an answer. An answer of another kind
/// than the one awaited changes nothing.
pub open spec fn advanced(state: ResolutionView, answer: AnswerView) -> ResolutionView {
    match (state, answer) {
        (ResolutionView::WorkingDirectory { path }, AnswerView::WorkingDirectory(cwd)) => {
            match absolute_form(path, cwd) {
                Ok(absolute) => located(absolute),
                Err(error) => ResolutionView::Done(Err(UnhappyView::AbsPathError(error))),
            }
        },
        (ResolutionView::ParentCanonical { absolute, parent }, AnswerView::Canonical(probed)) => {
            match probed {
                Ok(canonical) => ResolutionView::ParentListing { absolute, parent, canonical },
                Err(error) => ResolutionView::Done(
                    Err(UnhappyView::ParentProblem { absolute, parent, error }),
                ),
            }
        },
        (
            ResolutionView::ParentListing { absolute, parent, canonical },
            AnswerView::Listing(probed),
        ) => {
            match probed {
                Ok(names) => ResolutionView::ParentWrite {
                    absolute,
                    parent: DirView {
                        absolute: parent,
                        canonical,
                        entries: entry_paths(parent, names),
                        read: true,
                        write: false,
                        execute: false,
                    },
                },
                Err(error) => ResolutionView::Done(
                    Err(UnhappyView::ParentProblem { absolute, parent, error }),
                ),
            }
        },
        (ResolutionView::ParentWrite { absolute, parent }, AnswerView::Access(write)) => {
            ResolutionView::ParentExecute { absolute, parent: DirView { write, ..parent } }
        },
        (ResolutionView::ParentExecute { absolute, parent }, AnswerView::Access(execute)) => {
            ResolutionView::Canonical { absolute, parent: DirView { execute, ..parent } }
        },
        (ResolutionView::Canonical { absolute, parent }, AnswerView::Canonical(probed)) => {
            match probed {
                Ok(canonical) => ResolutionView::Metadata { absolute, parent, canonical },
                Err(error) => if holds_location(parent.entries, absolute) {
                    ResolutionView::Done(
                        Err(UnhappyView::CannotCanonicalize { absolute, parent, error }),
                    )
                } else {
                    ResolutionView::Done(Err(UnhappyView::DoesNotExist { absolute, parent }))
                },
            }
        },
        (
            ResolutionView::Metadata { absolute, parent, canonical },
            AnswerView::Metadata(probed),
        ) => {
            match probed {
                Ok(is_dir) => ResolutionView::IsSymlink {
                    found: HappyView {
                        absolute,
                        canonical,
                        symlink_target: None,
                        resolved_type: if is_dir {
                            ResolvedType::Dir
                        } else {
                            ResolvedType::File
                        },
                        parent,
                        read: false,
                        write: false,
                        execute: false,
                    },
                },
                Err(error) => ResolutionView::Done(
                    Err(UnhappyView::CannotMetadata { absolute, canonical, parent, error }),
                ),
            }
        },
        (ResolutionView::IsSymlink { found }, AnswerView::IsSymlink(yes)) => {
            if yes {
                ResolutionView::LinkTarget { found }
            } else {
                ResolutionView::Access { found, mode: AccessMode::Read }
            }
        },
        (ResolutionView::LinkTarget { found }, AnswerView::LinkTarget(probed)) => {
            match probed {
                Ok(target) => ResolutionView::Access {
                    found: HappyView {
                        symlink_target: Some(joined(found.absolute, target)),
                        ..found
                    },
                    mode: AccessMode::Read,
                },
                Err(error) => ResolutionView::Done(
                    Err(
                        UnhappyView::CannotReadLink {
                            absolute: found.absolute,
                            canonical: found.canonical,
                            parent: found.parent,
                            error,
                        },
                    ),
                ),
            }
        },
        (ResolutionView::Access { found, mode }, AnswerView::Access(yes)) => {
            match mode {
                AccessMode::Read => ResolutionView::Access {
                    found: HappyView { read: yes, ..found },
                    mode: AccessMode::Write,
                },
                AccessMode::Write => ResolutionView::Access {
                    found: HappyView { write: yes, ..found },
                    mode: AccessMode::Execute,
                },
                AccessMode::Execute => ResolutionView::Done(
                    Ok(HappyView { execute: yes, ..found }),
                ),
            }
        },
        _ => state,
    }
}

/// Whether `dir` is a listing of the directory that holds `absolute`.
pub open spec fn dir_holds(absolute: Seq<char>, dir: DirView) -> bool {
    &&& is_absolute(absolute)
    &&& parent_of(absolute) == Some(dir.absolute)
    &&& dir.read
}

/// What every outcome of a resolution carries: each obstacle exactly what
/// was gathered before it was met.
pub open spec fn sound(outcome: Result<HappyView, UnhappyView>) -> bool {
    match outcome {
        Ok(found) => dir_holds(found.absolute, found.parent),
        Err(UnhappyView::AbsPathError(AbsPathErrorView::PathIsEmpty(path))) => path.len() == 0,
        Err(UnhappyView::AbsPathError(AbsPathErrorView::CannotReadCWD(path, _))) => path.len() > 0
            && !is_absolute(path),
        Err(UnhappyView::IsRoot(absolute)) => is_absolute(absolute) && parent_of(absolute) is None,
        Err(UnhappyView::ParentProblem { absolute, parent, .. }) => is_absolute(absolute)
            && parent_of(absolute) == Some(parent),
        Err(UnhappyView::DoesNotExist { absolute, parent }) => dir_holds(absolute, parent)
            && !holds_location(parent.entries, absolute),
        Err(UnhappyView::CannotCanonicalize { absolute, parent, .. }) => dir_holds(
            absolute,
            parent,
        ) && holds_location(parent.entries, absolute),
        Err(UnhappyView::CannotMetadata { absolute, parent, .. }) => dir_holds(absolute, parent),
        Err(UnhappyView::CannotReadLink { absolute, parent, .. }) => dir_holds(absolute, parent),
    }
}

/// What holds of every state that a resolution passes through.
pub open spec fn coherent(state: ResolutionView) -> bool {
    match state {
        ResolutionView::WorkingDirectory { path } => path.len() > 0 && !is_absolute(path),
        ResolutionView::ParentCanonical { absolute, parent } => is_absolute(absolute)
            && parent_of(absolute) == Some(parent),
        ResolutionView::ParentListing { absolute, parent, .. } => is_absolute(absolute)
            && parent_of(absolute) == Some(parent),
        ResolutionView::ParentWrite { absolute, parent } => dir_holds(absolute, parent),
        ResolutionView::ParentExecute { absolute, parent } => dir_holds(absolute, parent),
        ResolutionView::Canonical { absolute, parent } => dir_holds(absolute, parent),
        ResolutionView::Metadata { absolute, parent, .. } => dir_holds(absolute, parent),
        ResolutionView::IsSymlink { found } => dir_holds(found.absolute, found.parent),
        ResolutionView::LinkTarget { found } => dir_holds(found.absolute, found.parent),
        ResolutionView::Access { found, .. } => dir_holds(found.absolute, found.parent),
        ResolutionView::Done(outcome) => sound(outcome),
    }
}

/// The absolute path that a resolution is about, once it is known.
pub open spec fn subject(state: ResolutionView) -> Option<Seq<char>> {
    match state {
        ResolutionView::WorkingDirectory { .. } => None,
        ResolutionView::ParentCanonical { absolute, .. } => Some(absolute),
        ResolutionView::ParentListing { absolute, .. } => Some(absolute),
        ResolutionView::ParentWrite { absolute, .. } => Some(absolute),
        ResolutionView::ParentExecute { absolute, .. } => Some(absolute),
        ResolutionView::Canonical { absolute, .. } => Some(absolute),
        ResolutionView::Metadata { absolute, .. } => Some(absolute),
        ResolutionView::IsSymlink { found } => Some(found.absolute),
        ResolutionView::LinkTarget { found } => Some(found.absolute),
        ResolutionView::Access { found, .. } => Some(found.absolute),
        ResolutionView::Done(outcome) => match outcome {
            Ok(found) => Some(found.absolute),
            Err(UnhappyView::AbsPathError(_)) => None,
            Err(UnhappyView::IsRoot(absolute)) => Some(absolute),
            Err(UnhappyView::ParentProblem { absolute, .. }) => Some(absolute),
            Err(UnhappyView::DoesNotExist { absolute, .. }) => Some(absolute),
            Err(UnhappyView::CannotCanonicalize { absolute, .. }) => Some(absolute),
            Err(UnhappyView::CannotMetadata { absolute, .. }) => Some(absolute),
            Err(UnhappyView::CannotReadLink { absolute, .. }) => Some(absolute),
        },
    }
}

/// An answer as the library's types let it be given: a working directory
/// is an absolute path.
pub open spec fn well_formed(answer: AnswerView) -> bool {
    answer matches AnswerView::WorkingDirectory(Ok(cwd)) ==> is_absolute(cwd)
}

/// The most observations that a resolution may still need.
pub open spec fn probes_left(state: ResolutionView) -> nat {
    match state {
        ResolutionView::WorkingDirectory { .. } => 12,
        ResolutionView::ParentCanonical { .. } => 11,
        ResolutionView::ParentListing { .. } => 10,
        ResolutionView::ParentWrite { .. } => 9,
        ResolutionView::ParentExecute { .. } => 8,
        ResolutionView::Canonical { .. } => 7,
        ResolutionView::Metadata { .. } => 6,
        ResolutionView::IsSymlink { .. } => 5,
        ResolutionView::LinkTarget { .. } => 4,
        ResolutionView::Access { mode, .. } => match mode {
            AccessMode::Read => 3,
            AccessMode::Write => 2,
            AccessMode::Execute => 1,
        },
        ResolutionView::Done(_) => 0,
    }
}

/// All that one resolution can observe of the filesystem, each observation
/// as its answer. Which of them a resolution asks for depends on the
/// answers before.
pub struct Observations {
    pub working_directory: Result<Seq<char>, Seq<char>>,
    pub parent_canonical: Result<Seq<char>, Seq<char>>,
    pub parent_names: Result<Seq<Seq<char>>, Seq<char>>,
    pub parent_write: bool,
    pub parent_execute: bool,
    pub canonical: Result<Seq<char>, Seq<char>>,
    pub is_dir: Result<bool, Seq<char>>,
    pub is_symlink: bool,
    pub link_target: Result<Seq<char>, Seq<char>>,
    pub read: bool,
    pub write: bool,
    pub execute: bool,
}

/// The parent directory as listed, or why it could not be: its canonical
/// form is asked for first, then its entries. A directory that was listed
/// can be read.
pub open spec fn listed_parent(parent: Seq<char>, seen: Observations) -> Result<
    DirView,
    Seq<char>,
> {
    match seen.parent_canonical {
        Err(error) => Err(error),
        Ok(canonical) => match seen.parent_names {
            Err(error) => Err(error),
            Ok(names) => Ok(
                DirView {
                    absolute: parent,
                    canonical,
                    entries: entry_paths(parent, names),
                    read: true,
                    write: seen.parent_write,
                    execute: seen.parent_execute,
                },
            ),
        },
    }
}

/// The outcome of resolving `path` where the filesystem answers as `seen`
/// says: the path is made absolute, its parent directory is listed, and
/// then the path is canonicalized, its metadata read, its link target read
/// if it is a symlink, and its permissions asked about. The first of these
/// to fail decides the outcome.
pub open spec fn resolved(path: Seq<char>, seen: Observations) -> Result<HappyView, UnhappyView> {
    match absolute_form(path, seen.working_directory) {
        Err(error) => Err(UnhappyView::AbsPathError(error)),
        Ok(absolute) => match parent_of(absolute) {
            None => Err(UnhappyView::IsRoot(absolute)),
            Some(dir) => match listed_parent(dir, seen) {
                Err(error) => Err(UnhappyView::ParentProblem { absolute, parent: dir, error }),
                Ok(parent) => match seen.canonical {
                    Err(error) => if holds_location(parent.entries, absolute) {
                        Err(UnhappyView::CannotCanonicalize { absolute, parent, error })
                    } else {
                        Err(UnhappyView::DoesNotExist { absolute, parent })
                    },
                    Ok(canonical) => match seen.is_dir {
                        Err(error) => Err(
                            UnhappyView::CannotMetadata { absolute, canonical, parent, error },
                        ),
                        Ok(is_dir) => if seen.is_symlink && seen.link_target is Err {
                            Err(
                                UnhappyView::CannotReadLink {
                                    absolute,
                                    canonical,
                                    parent,
                                    error: seen.link_target->Err_0,
                                },
                            )
                        } else {
                            Ok(
                                HappyView {
                                    absolute,
                                    canonical,
                                    symlink_target: if seen.is_symlink {
                                        Some(joined(absolute, seen.link_target->Ok_0))
                                    } else {
                                        None
                                    },
                                    resolved_type: if is_dir {
                                        ResolvedType::Dir
                                    } else {
                                        ResolvedType::File
                                    },
                                    parent,
                                    read: seen.read,
                                    write: seen.write,
                                    execute: seen.execute,
                                },
                            )
                        },
                    },
                },
            },
        },
    }
}

/// The answer that `seen` holds for what `state` is waiting for.
pub open spec fn answer_to(state: ResolutionView, seen: Observations) -> AnswerView {
    match state {
        ResolutionView::WorkingDirectory { .. } => AnswerView::WorkingDirectory(
            seen.working_directory,
        ),
        ResolutionView::ParentCanonical { .. } => AnswerView::Canonical(seen.parent_canonical),
        ResolutionView::ParentListing { .. } => AnswerView::Listing(seen.parent_names),
        ResolutionView::ParentWrite { .. } => AnswerView::Access(seen.parent_write),
        ResolutionView::ParentExecute { .. } => AnswerView::Access(seen.parent_execute),
        ResolutionView::Canonical { .. } => AnswerView::Canonical(seen.canonical),
        ResolutionView::Metadata { .. } => AnswerView::Metadata(seen.is_dir),
        ResolutionView::IsSymlink { .. } => AnswerView::IsSymlink(seen.is_symlink),
        ResolutionView::LinkTarget { .. } => AnswerView::LinkTarget(seen.link_target),
        ResolutionView::Access { mode, .. } => AnswerView::Access(
            match mode {
                AccessMode::Read => seen.read,
                AccessMode::Write => seen.write,
                AccessMode::Execute => seen.execute,
            },
        ),
        ResolutionView::Done(_) => AnswerView::Access(false),
    }
}

/// Where a resolution stands after at most `steps` observations, each
/// answered as `seen` says.
pub open spec fn run(state: ResolutionView, seen: Observations, steps: nat) -> ResolutionView
    decreases steps,
{
    if steps == 0 || state is Done {
        state
    } else {
        run(advanced(state, answer_to(state, seen)), seen, (steps - 1) as nat)
    }
}

/// Observations as the library's types let them be made: a working
/// directory is an absolute path.
pub open spec fn plausible(seen: Observations) -> bool {
    seen.working_directory matches Ok(cwd) ==> is_absolute(cwd)
}

/// Every answer of the kind awaited brings the end nearer, and a resolution
/// awaits an answer exactly as long as it is not done. A resolution starts
/// at most twelve observations from its end.
pub proof fn law_each_answer_brings_the_end_nearer(state: ResolutionView, answer: AnswerView)
    ensures
        fits(state, answer) ==> probes_left(advanced(state, answer)) < probes_left(state),
        !fits(state, answer) ==> advanced(state, answer) == state,
        awaited(state) is None <==> state is Done,
        probes_left(state) == 0 <==> state is Done,
        probes_left(state) <= 12,
{
}

/// What holds of the states of a resolution holds at its start and after
/// every answer.
pub proof fn lemma_coherence(path: Seq<char>, state: ResolutionView, answer: AnswerView)
    requires
        coherent(state),
        well_formed(answer),
    ensures
        coherent(started(path)),
        coherent(advanced(state, answer)),
{
    if let ResolutionView::WorkingDirectory { path } = state {
        if let AnswerView::WorkingDirectory(Ok(cwd)) = answer {
            crate::abs_path::lemma_absolutized_is_absolute(cwd, path);
        }
    }
}

/// A resolution stays with its path: the resolution of an absolute path is
/// about that path from the start, and no answer changes what a resolution
/// is about.
pub proof fn lemma_subject_stays(path: Seq<char>, state: ResolutionView, answer: AnswerView)
    ensures
        is_absolute(path) ==> subject(started(path)) == Some(path),
        subject(state) is Some ==> subject(advanced(state, answer)) == subject(state),
{
}

/// Resolving ends, and in the outcome that the observations decide: run on
/// the answers that `seen` holds, a resolution of `path` is done after at
/// most twelve of them, with a description of the path or with exactly one
/// obstacle.
pub proof fn law_resolution_ends(path: Seq<char>, seen: Observations)
    ensures
        run(started(path), seen, 12) == ResolutionView::Done(resolved(path, seen)),
{
    reveal_with_fuel(run, 13);
}

/// A resolution is done after as many answers as it may still need, and
/// further steps change nothing.
pub proof fn lemma_run_enough(state: ResolutionView, seen: Observations, steps: nat)
    requires
        steps >= probes_left(state),
    ensures
        run(state, seen, steps) == run(state, seen, probes_left(state)),
        run(state, seen, steps) is Done,
    decreases steps,
{
    if !(state is Done) {
        let next = advanced(state, answer_to(state, seen));
        law_each_answer_brings_the_end_nearer(state, answer_to(state, seen));
        lemma_run_enough(next, seen, (steps - 1) as nat);
        lemma_run_enough(next, seen, (probes_left(state) - 1) as nat);
    }
}

/// A path that is absent from the listing of its parent directory and
/// cannot be canonicalized does not exist: the outcome says so, with the
/// listing attached, and not that the path cannot be canonicalized. That
/// outcome is kept for the paths that the listing holds.
pub proof fn law_absent_entry_does_not_exist(path: Seq<char>, seen: Observations)
    ensures
        match resolved(path, seen) {
            Err(UnhappyView::DoesNotExist { absolute, parent }) => {
                &&& !holds_location(parent.entries, absolute)
                &&& seen.canonical is Err
                &&& parent_of(absolute) == Some(parent.absolute)
                &&& listed_parent(parent.absolute, seen) == Ok::<DirView, Seq<char>>(parent)
            },
            Err(UnhappyView::CannotCanonicalize { absolute, parent, error }) => {
                &&& holds_location(parent.entries, absolute)
                &&& seen.canonical == Err::<Seq<char>, Seq<char>>(error)
            },
            _ => true,
        },
        forall|absolute: Seq<char>, dir: Seq<char>, parent: DirView|
            absolute_form(path, seen.working_directory) == Ok::<Seq<char>, AbsPathErrorView>(
                absolute,
            ) && parent_of(absolute) == Some(dir) && listed_parent(dir, seen) == Ok::<
                DirView,
                Seq<char>,
            >(parent) && seen.canonical is Err && !holds_location(parent.entries, absolute)
                ==> resolved(path, seen) == Err::<HappyView, UnhappyView>(
                UnhappyView::DoesNotExist { absolute, parent },
            ),
{
}

/// Starts resolving `path`. Nothing is observed for that: an empty path and
/// the root end the resolution at once.
pub fn state(path: &str) -> (out: Resolution)
    ensures
        out@ == started(path@),
{
    let stage = if path.is_empty() {
        Stage::Done(Err(UnhappyPath::AbsPathError(AbsPathError::PathIsEmpty(path.to_owned()))))
    } else {
        match AbsPath::from_rooted(path) {
            Some(absolute) => locate(absolute),
            None => Stage::WorkingDirectory { path: path.to_owned() },
        }
    };
    proof {
        lemma_coherence(path@, started(path@), AnswerView::Access(false));
    }
    Resolution { stage }
}

/// Goes on with a path that is absolute.
fn locate(absolute: AbsPath) -> (out: Stage)
    ensures
        out.shape() == located(absolute@),
{
    match absolute.parent() {
        None => Stage::Done(Err(UnhappyPath::IsRoot(absolute))),
        Some(parent) => Stage::ParentCanonical { absolute, parent },
    }
}

impl Resolution {
    #[verifier::type_invariant]
    spec fn reachable(self) -> bool {
        coherent(self.stage.shape())
    }

    /// The outcome, once the resolution is done.
    pub fn outcome(&self) -> (out: Option<&Result<HappyPath, UnhappyPath>>)
        ensures
            match self@ {
                ResolutionView::Done(outcome) => out matches Some(held) && result_deep_view(*held)
                    == outcome && sound(outcome),
                _ => out is None,
            },
    {
        proof {
            use_type_invariant(self);
        }
        match &self.stage {
            Stage::Done(outcome) => Some(outcome),
            _ => None,
        }
    }

    /// The observation needed next, or `None` when the resolution is done.
    pub fn probe(&self) -> (out: Option<Probe>)
        ensures
            out.deep_view() == awaited(self@),
    {
        match &self.stage {
            Stage::WorkingDirectory { .. } => Some(Probe::WorkingDirectory),
            Stage::ParentCanonical { parent, .. } => Some(
                Probe::Canonicalize(parent.as_str().to_owned()),
            ),
            Stage::ParentListing { parent, .. } => Some(
                Probe::ListDirectory(parent.as_str().to_owned()),
            ),
            Stage::ParentWrite { parent, .. } => Some(
                Probe::Access(parent.canonical.as_str().to_owned(), AccessMode::Write),
            ),
            Stage::ParentExecute { parent, .. } => Some(
                Probe::Access(parent.canonical.as_str().to_owned(), AccessMode::Execute),
            ),
            Stage::Canonical { absolute, .. } => Some(
                Probe::Canonicalize(absolute.as_str().to_owned()),
            ),
            Stage::Metadata { absolute, .. } => Some(
                Probe::Metadata(absolute.as_str().to_owned()),
            ),
            Stage::IsSymlink { found } => Some(
                Probe::IsSymlink(found.absolute.as_str().to_owned()),
            ),
            Stage::LinkTarget { found } => Some(
                Probe::ReadLink(found.absolute.as_str().to_owned()),
            ),
            Stage::Access { found, mode } => Some(
                Probe::Access(found.canonical.as_str().to_owned(), *mode),
            ),
            Stage::Done(_) => None,
        }
    }

    /// Takes the answer to the observation that was needed and moves on. An
    /// answer of another kind is dropped.
    pub fn advance(self, answer: Answer) -> (out: Resolution)
        ensures
            out@ == advanced(self@, answer@),
    {
        if let Answer::WorkingDirectory(Ok(cwd)) = &answer {
            proof {
                use_type_invariant(cwd);
            }
        }
        proof {
            use_type_invariant(&self);
            lemma_coherence(Seq::empty(), self@, answer@);
        }
        let stage = match self.stage {
            Stage::WorkingDirectory { path } => match answer {
                Answer::WorkingDirectory(cwd) => match AbsPath::new(path.as_str(), &cwd) {
                    Ok(absolute) => locate(absolute),
                    Err(error) => Stage::Done(Err(UnhappyPath::AbsPathError(error))),
                },
                _ => Stage::WorkingDirectory { path },
            },
            Stage::ParentCanonical { absolute, parent } => match answer {
                Answer::Canonical(probed) => match CanonicalPath::new(probed) {
                    Ok(canonical) => Stage::ParentListing { absolute, parent, canonical },
                    Err(error) => Stage::Done(
                        Err(UnhappyPath::ParentProblem { absolute, parent, error }),
                    ),
                },
                _ => Stage::ParentCanonical { absolute, parent },
            },
            Stage::ParentListing { absolute, parent, canonical } => match answer {
                Answer::Listing(probed) => match probed {
                    Ok(names) => Stage::ParentWrite {
                        absolute,
                        parent: DirOk::new(parent, canonical, &names, false, false),
                    },
                    Err(error) => Stage::Done(
                        Err(UnhappyPath::ParentProblem { absolute, parent, error }),
                    ),
                },
                _ => Stage::ParentListing { absolute, parent, canonical },
            },
            Stage::ParentWrite { absolute, parent } => match answer {
                Answer::Access(write) => Stage::ParentExecute {
                    absolute,
                    parent: parent.with_write(write),
                },
                _ => Stage::ParentWrite { absolute, parent },
            },
            Stage::ParentExecute { absolute, parent } => match answer {
                Answer::Access(execute) => Stage::Canonical {
                    absolute,
                    parent: parent.with_execute(execute),
                },
                _ => Stage::ParentExecute { absolute, parent },
            },
            Stage::Canonical { absolute, parent } => match answer {
                Answer::Canonical(probed) => match CanonicalPath::new(probed) {
                    Ok(canonical) => Stage::Metadata { absolute, parent, canonical },
                    Err(error) => if parent.has_entry(&absolute) {
                        Stage::Done(
                            Err(UnhappyPath::CannotCanonicalize { absolute, parent, error }),
                        )
                    } else {
                        Stage::Done(Err(UnhappyPath::DoesNotExist { absolute, parent }))
                    },
                },
                _ => Stage::Canonical { absolute, parent },
            },
            Stage::Metadata { absolute, parent, canonical } => match answer {
                Answer::Metadata(probed) => match ResolvedMetadata::new(probed) {
                    Ok(metadata) => Stage::IsSymlink {
                        found: HappyPath {
                            absolute,
                            canonical,
                            symlink_target: None,
                            resolved_type: metadata.resolved_type(),
                            parent,
                            read: false,
                            write: false,
                            execute: false,
                        },
                    },
                    Err(error) => Stage::Done(
                        Err(UnhappyPath::CannotMetadata { absolute, canonical, parent, error }),
                    ),
                },
                _ => Stage::Metadata { absolute, parent, canonical },
            },
            Stage::IsSymlink { found } => match answer {
                Answer::IsSymlink(yes) => if yes {
                    Stage::LinkTarget { found }
                } else {
                    Stage::Access { found, mode: AccessMode::Read }
                },
                _ => Stage::IsSymlink { found },
            },
            Stage::LinkTarget { found } => match answer {
                Answer::LinkTarget(probed) => match try_readlink(&found.absolute, Some(probed)) {
                    Ok(symlink_target) => Stage::Access {
                        found: HappyPath { symlink_target, ..found },
                        mode: AccessMode::Read,
                    },
                    Err(error) => Stage::Done(
                        Err(
                            UnhappyPath::CannotReadLink {
                                absolute: found.absolute,
                                canonical: found.canonical,
                                parent: found.parent,
                                error,
                            },
                        ),
                    ),
                },
                _ => Stage::LinkTarget { found },
            },
            Stage::Access { found, mode } => match answer {
                Answer::Access(yes) => match mode {
                    AccessMode::Read => Stage::Access {
                        found: HappyPath { read: yes, ..found },
                        mode: AccessMode::Write,
                    },
                    AccessMode::Write => Stage::Access {
                        found: HappyPath { write: yes, ..found },
                        mode: AccessMode::Execute,
                    },
                    AccessMode::Execute => Stage::Done(
                        Ok(HappyPath { execute: yes, ..found }),
                    ),
                },
                _ => Stage::Access { found, mode },
            },
            Stage::Done(outcome) => Stage::Done(outcome),
        };
        Resolution { stage }
    }
}

} // verus!
