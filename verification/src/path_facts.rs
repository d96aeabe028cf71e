//! Helpful facts about a path: whether it exists and what it is, or what
//! stands in the way, told as a report.
//!
//! The facts are gathered one observation at a time. Where the parent
//! directory of the path cannot be listed, the directories above it are
//! resolved in turn, nearest first, until one of them gives a diagnosis.
use vstd::prelude::*;
use crate::abs_path::{
    absolute_form,
    file_name_of,
    holds_location,
    is_absolute,
    lemma_parent_is_shorter,
    same_location,
    AbsPath,
    AbsPathError,
    AbsPathErrorView,
};
use crate::happy_path::{DirOk, DirView, HappyPath, HappyView, UnhappyPath, UnhappyView};
use crate::probe::{Answer, AnswerView, Probe, ProbeView};
use crate::resolution::{
    advanced,
    answer_to,
    awaited,
    coherent,
    fits,
    law_each_answer_brings_the_end_nearer,
    law_resolution_ends,
    lemma_coherence,
    lemma_run_enough,
    lemma_subject_stays,
    plausible,
    probes_left,
    resolved,
    run,
    sound,
    started,
    state,
    subject,
    well_formed,
    Observations,
    Resolution,
    ResolutionView,
};
use crate::resolved_metadata::ResolvedType;
use crate::style::{
    append_if,
    appended_if,
    bullet,
    bulleted,
    conditional_perms,
    directory_text,
    file_name_or_path,
    filename_or_path,
    fmt_dir,
    lemma_entry_lines_agree,
    noted,
    notes_of,
    permissions_text,
};
use crate::text::{quote, quoted, result_deep_view};

verus! {

/// `text` as a line of its own.
pub open spec fn line(text: Seq<char>) -> Seq<char> {
    text + "\n"@
}

/// `text` as a bullet point on lines of its own.
pub open spec fn bullet_line(text: Seq<char>) -> Seq<char> {
    bulleted(text) + "\n"@
}

/// The absolute form of the path, shown where the path was given relative.
pub open spec fn absolute_line(path: Seq<char>, absolute: Seq<char>) -> Seq<char> {
    if is_absolute(path) {
        Seq::empty()
    } else {
        bullet_line("Absolute: "@ + quoted(absolute))
    }
}

/// The headline of a path that was seen or not seen in its parent
/// directory.
pub open spec fn presence_line(path: Seq<char>, absolute: Seq<char>, parent: DirView) -> Seq<
    char,
> {
    if holds_location(parent.entries, absolute) {
        line("exists "@ + quoted(path))
    } else {
        line("does not exist "@ + quoted(path))
    }
}

/// A note on each entry: `note` on those at `absolute`, none on the others.
pub open spec fn marked(entries: Seq<Seq<char>>, absolute: Seq<char>, note: Seq<char>) -> Seq<
    Option<Seq<char>>,
> {
    Seq::new(
        entries.len(),
        |i: int|
            if same_location(entries[i], absolute) {
                Some(note)
            } else {
                None
            },
    )
}

/// No note on any entry.
pub open spec fn unmarked(entries: Seq<Seq<char>>) -> Seq<Option<Seq<char>>> {
    Seq::new(entries.len(), |i: int| None)
}

/// What the listing says of a path that was resolved: its type, and its
/// permissions where one is missing.
pub open spec fn type_note(found: HappyView) -> Seq<char> {
    "("@ + found.resolved_type.text() + appended_if(
        ": "@,
        permissions_text(found.read, found.write, found.execute),
    ) + ")"@
}

/// The report on a path that was resolved.
pub open spec fn happy_text(path: Seq<char>, found: HappyView) -> Seq<char> {
    line("exists "@ + quoted(path)) + absolute_line(path, found.absolute) + (match found.symlink_target {
        Some(target) => bullet_line("Canonical: "@ + quoted(found.canonical)) + bullet_line(
            "Symlink target: "@ + quoted(target),
        ),
        None => Seq::empty(),
    }) + bullet_line(
        directory_text(
            found.parent,
            marked(found.parent.entries, found.absolute, type_note(found)),
        ),
    )
}

/// The report on an obstacle, without what a look further up adds to it.
pub open spec fn unhappy_text(path: Seq<char>, failure: UnhappyView) -> Seq<char> {
    match failure {
        UnhappyView::AbsPathError(AbsPathErrorView::PathIsEmpty(given)) => line(
            "path "@ + quoted(given) + " is empty"@,
        ),
        UnhappyView::AbsPathError(AbsPathErrorView::CannotReadCWD(given, error)) => line(
            quoted(given),
        ) + bullet_line("Cannot read current working directory: "@ + error),
        UnhappyView::IsRoot(absolute) => line("is root "@ + quoted(absolute)),
        UnhappyView::ParentProblem { absolute, .. } => line("cannot access "@ + quoted(path))
            + absolute_line(path, absolute),
        UnhappyView::DoesNotExist { absolute, parent } => line("does not exist "@ + quoted(path))
            + absolute_line(path, absolute) + bullet_line(
            "Missing "@ + quoted(file_name_or_path(path)) + " from parent directory:\n"@
                + directory_text(parent, unmarked(parent.entries)),
        ) + (if parent.write {
            Seq::empty()
        } else {
            bullet_line(
                "Parent directory is missing write permissions (cannot create, delete, or modify files)"@,
            )
        }),
        UnhappyView::CannotCanonicalize { absolute, parent, error } => presence_line(
            path,
            absolute,
            parent,
        ) + absolute_line(path, absolute) + bullet_line(
            "Cannot canonicalize due to error `"@ + error + "`"@,
        ) + bullet_line(directory_text(parent, marked(parent.entries, absolute, "(exists)"@))),
        UnhappyView::CannotMetadata { absolute, canonical, parent, error } => presence_line(
            path,
            absolute,
            parent,
        ) + absolute_line(path, absolute) + bullet_line("Canonical: "@ + quoted(canonical))
            + bullet_line("Cannot read metadata due to error `"@ + error + "`"@) + bullet_line(
            directory_text(parent, marked(parent.entries, absolute, "(exists)"@)),
        ),
        UnhappyView::CannotReadLink { absolute, canonical, parent, error } => presence_line(
            path,
            absolute,
            parent,
        ) + absolute_line(path, absolute) + bullet_line("Canonical: "@ + quoted(canonical))
            + bullet_line("Cannot readlink due to error `"@ + error + "`"@) + bullet_line(
            directory_text(parent, marked(parent.entries, absolute, "(exists)"@)),
        ),
    }
}

/// The report on an outcome.
pub open spec fn outcome_text(path: Seq<char>, outcome: Result<HappyView, UnhappyView>) -> Seq<
    char,
> {
    match outcome {
        Ok(found) => happy_text(path, found),
        Err(failure) => unhappy_text(path, failure),
    }
}

/// What the nearest directory with a diagnosis adds to the report on a path
/// whose parent could not be listed: that a path on the way is a file, not
/// a directory, or else whatever was found there.
pub open spec fn prior_text(dir: Seq<char>, outcome: Result<HappyView, UnhappyView>) -> Seq<
    char,
> {
    if outcome matches Ok(found) && found.resolved_type == ResolvedType::File {
        bullet_line("Prior path is not a directory"@) + bullet_line(
            "Prior path "@ + outcome_text(dir, outcome),
        )
    } else {
        bullet_line("Prior directory "@ + outcome_text(dir, outcome))
    }
}

/// The content of [`PathFacts`].
pub struct FactsView {
    /// The path as it was given.
    pub path: Seq<char>,
    /// The resolution of the path.
    pub state: ResolutionView,
    /// The directory above the path that is looked at for a diagnosis, and
    /// its resolution.
    pub prior: Option<(Seq<char>, ResolutionView)>,
}

/// The directory to look at after a resolution: the parent that could not
/// be listed, where that is how the resolution ended.
pub open spec fn raised(state: ResolutionView) -> Option<(Seq<char>, ResolutionView)> {
    match state {
        ResolutionView::Done(Err(UnhappyView::ParentProblem { parent, .. })) => Some(
            (parent, started(parent)),
        ),
        _ => None,
    }
}

/// The facts at their start: the path is being resolved.
pub open spec fn begun(path: Seq<char>) -> FactsView {
    FactsView { path, state: started(path), prior: None }
}

/// The resolution that is under way: that of the path until it is done,
/// then that of the directory looked at.
pub open spec fn active(facts: FactsView) -> ResolutionView {
    match facts.prior {
        Some((_, above)) if facts.state is Done => above,
        _ => facts.state,
    }
}

/// The observation that is needed next.
pub open spec fn wanted(facts: FactsView) -> Option<ProbeView> {
    awaited(active(facts))
}

/// The facts after an answer. Where a resolution ends at a parent
/// directory that could not be listed, that directory is looked at next.
pub open spec fn observed(facts: FactsView, answer: AnswerView) -> FactsView {
    if !(facts.state is Done) {
        let state = advanced(facts.state, answer);
        FactsView { state, prior: raised(state), ..facts }
    } else {
        match facts.prior {
            Some((dir, state)) => {
                let next = advanced(state, answer);
                FactsView {
                    prior: match raised(next) {
                        Some(above) => Some(above),
                        None => Some((dir, next)),
                    },
                    ..facts
                }
            },
            None => facts,
        }
    }
}

/// The report, once nothing more is needed.
pub open spec fn report_text(facts: FactsView) -> Option<Seq<char>> {
    match facts.state {
        ResolutionView::Done(outcome) => match facts.prior {
            None => Some(outcome_text(facts.path, outcome)),
            Some((dir, ResolutionView::Done(above))) => Some(
                outcome_text(facts.path, outcome) + prior_text(dir, above),
            ),
            Some(_) => None,
        },
        _ => None,
    }
}

/// What holds of facts at every moment: a directory above the path is
/// looked at exactly where the parent of the path could not be listed, and
/// its resolution is about that directory and has not itself ended at a
/// parent that could not be listed.
pub open spec fn valid(facts: FactsView) -> bool {
    &&& coherent(facts.state)
    &&& facts.prior is Some <==> raised(facts.state) is Some
    &&& facts.prior matches Some((dir, above)) ==> {
        &&& coherent(above)
        &&& subject(above) == Some(dir)
        &&& raised(above) is None
    }
}

/// How far facts are from complete, as three numbers of which the first
/// that differs decides: whether the path itself is still being resolved,
/// the length of the directory looked at, and the observations that the
/// resolution under way may still need.
pub open spec fn rank(facts: FactsView) -> (nat, nat, nat) {
    if !(facts.state is Done) {
        (1, 0, probes_left(facts.state))
    } else {
        match facts.prior {
            Some((dir, above)) => (0, dir.len(), probes_left(above)),
            None => (0, 0, 0),
        }
    }
}

/// The order of ranks: the first number that differs decides.
pub open spec fn lower(a: (nat, nat, nat), b: (nat, nat, nat)) -> bool {
    a.0 < b.0 || (a.0 == b.0 && (a.1 < b.1 || (a.1 == b.1 && a.2 < b.2)))
}

/// Gathering facts ends. Every answer of the kind awaited lowers the rank,
/// which cannot go on forever; an answer of another kind changes nothing;
/// and facts are complete, with a report, exactly when no observation is
/// wanted.
pub proof fn law_facts_get_complete(facts: FactsView, answer: AnswerView)
    requires
        valid(facts),
        well_formed(answer),
    ensures
        valid(observed(facts, answer)),
        fits(active(facts), answer) ==> lower(rank(observed(facts, answer)), rank(facts)),
        !fits(active(facts), answer) ==> observed(facts, answer) == facts,
        wanted(facts) is None <==> report_text(facts) is Some,
{
    let after = observed(facts, answer);
    if !(facts.state is Done) {
        lemma_coherence(Seq::empty(), facts.state, answer);
        lemma_raised(after.state);
    } else if let Some((dir, above)) = facts.prior {
        let next = advanced(above, answer);
        lemma_coherence(Seq::empty(), above, answer);
        lemma_subject_stays(Seq::empty(), above, answer);
        lemma_raised(next);
        if let Some((higher, _)) = raised(next) {
            lemma_parent_is_shorter(dir);
        }
    }
}

/// The resolution of the directory to look at starts well, and is about
/// that directory.
proof fn lemma_raised(state: ResolutionView)
    requires
        coherent(state),
    ensures
        raised(state) matches Some((dir, above)) ==> coherent(above) && subject(above) == Some(dir)
            && raised(above) is None && is_absolute(dir),
{
    if let Some((dir, above)) = raised(state) {
        lemma_parent_is_shorter(subject(state)->0);
        lemma_coherence(dir, state, AnswerView::Access(false));
        lemma_subject_stays(dir, state, AnswerView::Access(false));
    }
}

/// The path that the resolution under way is about.
pub open spec fn focus(facts: FactsView) -> Seq<char> {
    match facts.prior {
        Some((dir, _)) if facts.state is Done => dir,
        _ => facts.path,
    }
}

/// The facts after at most `steps` observations, where the resolution of
/// each path is answered as `seen` says for that path.
pub open spec fn gathered(
    facts: FactsView,
    seen: spec_fn(Seq<char>) -> Observations,
    steps: nat,
) -> FactsView
    decreases steps,
{
    if steps == 0 || wanted(facts) is None {
        facts
    } else {
        gathered(
            observed(facts, answer_to(active(facts), seen(focus(facts)))),
            seen,
            (steps - 1) as nat,
        )
    }
}

/// The nearest directory, from `dir` upwards, whose resolution does not end
/// at a parent that cannot be listed, and how its resolution ends. The
/// parent of an absolute path is shorter than the path, so the way up ends.
pub open spec fn diagnosis(dir: Seq<char>, seen: spec_fn(Seq<char>) -> Observations) -> (
    Seq<char>,
    Result<HappyView, UnhappyView>,
)
    decreases dir.len(),
{
    match resolved(dir, seen(dir)) {
        Err(UnhappyView::ParentProblem { parent, .. }) if parent.len() < dir.len() => diagnosis(
            parent,
            seen,
        ),
        outcome => (dir, outcome),
    }
}

/// What the directories above add to a resolution that is done: where it
/// ended at a parent that could not be listed, the diagnosis found from
/// that parent upwards.
pub open spec fn looked_up(
    end: ResolutionView,
    seen: spec_fn(Seq<char>) -> Observations,
) -> Option<(Seq<char>, ResolutionView)> {
    match end {
        ResolutionView::Done(Err(UnhappyView::ParentProblem { parent, .. })) => {
            let found = diagnosis(parent, seen);
            Some((found.0, ResolutionView::Done(found.1)))
        },
        _ => None,
    }
}

/// The complete facts about `path`: how its resolution ends, and with it
/// the diagnosis from further up where the parent could not be listed.
pub open spec fn complete(path: Seq<char>, seen: spec_fn(Seq<char>) -> Observations) -> FactsView {
    let end = ResolutionView::Done(resolved(path, seen(path)));
    FactsView { path, state: end, prior: looked_up(end, seen) }
}

/// A number of observations that is enough to complete the facts about
/// `path`: twelve for the path, and twelve more for every character of its
/// absolute form.
pub open spec fn enough(path: Seq<char>, seen: spec_fn(Seq<char>) -> Observations) -> nat {
    match absolute_form(path, seen(path).working_directory) {
        Ok(absolute) => 12 + 12 * absolute.len(),
        Err(_) => 12,
    }
}

/// How a resolution under way ends.
spec fn ended(state: ResolutionView, seen: Observations) -> ResolutionView {
    run(state, seen, probes_left(state))
}

/// The length of the absolute path that a resolution turns out to be
/// about.
spec fn reach(state: ResolutionView, seen: Observations) -> nat {
    match subject(ended(state, seen)) {
        Some(absolute) => absolute.len(),
        None => 0,
    }
}

/// The diagnosis that looking at `dir` leads to, from a resolution of `dir`
/// that is under way.
spec fn settled(
    dir: Seq<char>,
    state: ResolutionView,
    seen: spec_fn(Seq<char>) -> Observations,
) -> (Seq<char>, ResolutionView) {
    match looked_up(ended(state, seen(dir)), seen) {
        Some(found) => found,
        None => (dir, ended(state, seen(dir))),
    }
}

/// Looking at the parent that could not be listed leads to the diagnosis
/// from that parent upwards.
proof fn lemma_settled_at_start(
    end: ResolutionView,
    seen: spec_fn(Seq<char>) -> Observations,
)
    requires
        coherent(end),
    ensures
        raised(end) matches Some((parent, above)) ==> looked_up(end, seen) == Some(
            settled(parent, above, seen),
        ),
        raised(end) is None ==> looked_up(end, seen) is None,
{
    if let Some((parent, above)) = raised(end) {
        lemma_raised(end);
        law_resolution_ends(parent, seen(parent));
        law_each_answer_brings_the_end_nearer(above, AnswerView::Access(false));
        lemma_run_enough(above, seen(parent), 12);
        let outcome = resolved(parent, seen(parent));
        assert(ended(above, seen(parent)) == ResolutionView::Done(outcome));
        let found = diagnosis(parent, seen);
        lemma_parent_is_shorter(parent);
        assert(looked_up(end, seen) == Some((found.0, ResolutionView::Done(found.1))));
        match outcome {
            Err(UnhappyView::ParentProblem { parent: higher, .. }) => {
                assert(found == diagnosis(higher, seen));
            },
            _ => {
                assert(found == (parent, outcome));
            },
        }
    }
}

/// Looking at the directories above ends in the diagnosis, within twelve
/// observations for every character of the directory looked at.
proof fn lemma_walk(
    facts: FactsView,
    dir: Seq<char>,
    above: ResolutionView,
    seen: spec_fn(Seq<char>) -> Observations,
    steps: nat,
)
    requires
        valid(facts),
        facts.state is Done,
        facts.prior == Some((dir, above)),
        steps >= probes_left(above) + 12 * dir.len(),
    ensures
        gathered(facts, seen, steps) == (FactsView {
            prior: Some(settled(dir, above, seen)),
            ..facts
        }),
    decreases steps,
{
    if above is Done {
        assert(ended(above, seen(dir)) == above);
    } else {
        let answer = answer_to(above, seen(dir));
        let next = advanced(above, answer);
        let after = observed(facts, answer);
        law_each_answer_brings_the_end_nearer(above, answer);
        law_facts_get_complete(facts, answer);
        lemma_run_enough(next, seen(dir), (probes_left(above) - 1) as nat);
        assert(ended(above, seen(dir)) == ended(next, seen(dir)));
        lemma_coherence(Seq::empty(), above, answer);
        lemma_subject_stays(Seq::empty(), above, answer);
        lemma_settled_at_start(next, seen);
        if let Some((parent, begin)) = raised(next) {
            lemma_parent_is_shorter(dir);
            law_each_answer_brings_the_end_nearer(begin, answer);
            assert(ended(next, seen(dir)) == next);
            lemma_walk(after, parent, begin, seen, (steps - 1) as nat);
        } else {
            lemma_walk(after, dir, next, seen, (steps - 1) as nat);
        }
    }
}

/// Resolving the path ends as its observations decide, and the look
/// further up, where there is one, in the diagnosis.
proof fn lemma_main(facts: FactsView, seen: spec_fn(Seq<char>) -> Observations, steps: nat)
    requires
        valid(facts),
        facts.prior is None,
        plausible(seen(facts.path)),
        steps >= probes_left(facts.state) + 12 * reach(facts.state, seen(facts.path)),
    ensures
        gathered(facts, seen, steps) == (FactsView {
            state: ended(facts.state, seen(facts.path)),
            prior: looked_up(ended(facts.state, seen(facts.path)), seen),
            ..facts
        }),
    decreases steps,
{
    let state = facts.state;
    let obs = seen(facts.path);
    if state is Done {
        assert(ended(state, obs) == state);
    } else {
        let answer = answer_to(state, obs);
        let next = advanced(state, answer);
        let after = observed(facts, answer);
        law_each_answer_brings_the_end_nearer(state, answer);
        law_facts_get_complete(facts, answer);
        lemma_run_enough(next, obs, (probes_left(state) - 1) as nat);
        assert(ended(state, obs) == ended(next, obs));
        lemma_coherence(Seq::empty(), state, answer);
        lemma_settled_at_start(next, seen);
        if let Some((parent, begin)) = raised(next) {
            assert(ended(next, obs) == next);
            lemma_parent_is_shorter(subject(next)->0);
            law_each_answer_brings_the_end_nearer(begin, answer);
            lemma_walk(after, parent, begin, seen, (steps - 1) as nat);
        } else {
            lemma_main(after, seen, (steps - 1) as nat);
        }
    }
}

/// Gathering facts ends in the complete facts. Where the resolution of
/// each path is answered as `seen` says for that path, the facts about
/// `path` are complete after a bounded number of observations: they hold
/// how the resolution of `path` ends and, where that is at a parent that
/// could not be listed, the diagnosis of the nearest directory above that
/// has one. More observations are not wanted then, and there is a report.
pub proof fn law_facts_end_in_the_diagnosis(
    path: Seq<char>,
    seen: spec_fn(Seq<char>) -> Observations,
    steps: nat,
)
    requires
        plausible(seen(path)),
        steps >= enough(path, seen),
    ensures
        gathered(begun(path), seen, steps) == complete(path, seen),
        wanted(complete(path, seen)) is None,
        report_text(complete(path, seen)) is Some,
        valid(complete(path, seen)),
{
    let facts = begun(path);
    lemma_coherence(path, started(path), AnswerView::Access(false));
    law_resolution_ends(path, seen(path));
    lemma_run_enough(started(path), seen(path), 12);
    law_each_answer_brings_the_end_nearer(started(path), AnswerView::Access(false));
    lemma_main(facts, seen, steps);
    lemma_gathered_stays_valid(facts, seen, steps);
    lemma_gathered_is_complete(facts, seen, steps);
}

/// Facts stay valid however many observations are made.
proof fn lemma_gathered_stays_valid(
    facts: FactsView,
    seen: spec_fn(Seq<char>) -> Observations,
    steps: nat,
)
    requires
        valid(facts),
        plausible(seen(facts.path)),
    ensures
        valid(gathered(facts, seen, steps)),
        gathered(facts, seen, steps).path == facts.path,
    decreases steps,
{
    if steps > 0 && wanted(facts) is Some {
        let answer = answer_to(active(facts), seen(focus(facts)));
        law_facts_get_complete(facts, answer);
        lemma_gathered_stays_valid(observed(facts, answer), seen, (steps - 1) as nat);
    }
}

/// Facts in which every resolution is done want nothing more.
proof fn lemma_gathered_is_complete(
    facts: FactsView,
    seen: spec_fn(Seq<char>) -> Observations,
    steps: nat,
)
    requires
        valid(gathered(facts, seen, steps)),
        gathered(facts, seen, steps).state is Done,
        gathered(facts, seen, steps).prior matches Some((_, above)) ==> above is Done,
    ensures
        wanted(gathered(facts, seen, steps)) is None,
        report_text(gathered(facts, seen, steps)) is Some,
{
}

/// Shows helpful facts about a path when reported.
#[derive(Debug)]
pub struct PathFacts {
    path: String,
    state: Resolution,
    prior: Option<Prior>,
}

/// A directory above the path, and its resolution.
#[derive(Debug)]
struct Prior {
    dir: AbsPath,
    state: Resolution,
}

impl View for PathFacts {
    type V = FactsView;

    closed spec fn view(&self) -> FactsView {
        FactsView {
            path: self.path@,
            state: self.state@,
            prior: match self.prior {
                Some(prior) => Some((prior.dir@, prior.state@)),
                None => None,
            },
        }
    }
}

/// A directory with `note` on each entry at `absolute`.
fn marked_dir(dir: &DirOk, absolute: &AbsPath, note: &str) -> (out: String)
    ensures
        out@ == directory_text(dir@, marked(dir@.entries, absolute@, note@)),
{
    let annotate = |entry: &AbsPath| -> (out: Option<String>)
        ensures
            out.deep_view() == (if same_location(entry@, absolute@) {
                Some(note@)
            } else {
                None
            }),
        {
            if *entry == *absolute {
                Some(note.to_owned())
            } else {
                None
            }
        };
    let out = fmt_dir(dir, annotate);
    proof {
        let entries = dir@.entries;
        let notes = choose|notes: Seq<Option<Seq<char>>>| #[trigger]
            notes_of(annotate, entries, notes) && out@ == directory_text(dir@, notes);
        let marks = marked(entries, absolute@, note@);
        assert forall|j: int|
            0 <= j < entries.len() && file_name_of(entries[j]) is Some implies notes[j]
            == marks[j] by {
            assert(noted(annotate, entries[j], notes[j]));
        }
        lemma_entry_lines_agree(entries, notes, marks, entries.len());
    }
    out
}

/// A directory without a note on any entry.
fn plain_dir(dir: &DirOk) -> (out: String)
    ensures
        out@ == directory_text(dir@, unmarked(dir@.entries)),
{
    let annotate = |entry: &AbsPath| -> (out: Option<String>)
        ensures
            out is None,
        { None };
    let out = fmt_dir(dir, annotate);
    proof {
        let entries = dir@.entries;
        let notes = choose|notes: Seq<Option<Seq<char>>>| #[trigger]
            notes_of(annotate, entries, notes) && out@ == directory_text(dir@, notes);
        let marks = unmarked(entries);
        assert forall|j: int|
            0 <= j < entries.len() && file_name_of(entries[j]) is Some implies notes[j]
            == marks[j] by {
            assert(noted(annotate, entries[j], notes[j]));
        }
        lemma_entry_lines_agree(entries, notes, marks, entries.len());
    }
    out
}

/// `text` as a bullet point on lines of its own.
fn bullet_text(text: &str) -> (out: String)
    ensures
        out@ == bullet_line(text@),
{
    let mut out = bullet(text);
    out.append("\n");
    out
}

/// `label` and then `text`, as a bullet point on lines of its own.
fn labelled(label: &str, text: &str) -> (out: String)
    ensures
        out@ == bullet_line(label@ + text@),
{
    let mut point = label.to_owned();
    point.append(text);
    bullet_text(point.as_str())
}

/// `word` and then `path` between backticks, as a line of its own.
fn headline(word: &str, path: &str) -> (out: String)
    ensures
        out@ == line(word@ + quoted(path@)),
{
    let mut out = word.to_owned();
    out.append(quote(path).as_str());
    out.append("\n");
    out
}

/// Adds the absolute form of the path where the path was given relative.
fn add_absolute(out: &mut String, path: &str, absolute: &AbsPath)
    ensures
        final(out)@ == old(out)@ + absolute_line(path@, absolute@),
{
    if path.is_empty() || path.get_char(0) != '/' {
        out.append(labelled("Absolute: ", absolute.display().as_str()).as_str());
    } else {
        assert(out@ + Seq::<char>::empty() =~= out@);
    }
}

/// The headline of a path that was seen or not seen in its parent
/// directory.
fn presence(path: &str, absolute: &AbsPath, parent: &DirOk) -> (out: String)
    ensures
        out@ == presence_line(path@, absolute@, parent@),
{
    if parent.has_entry(absolute) {
        headline("exists ", path)
    } else {
        headline("does not exist ", path)
    }
}

/// The bullet point that quotes the error of a failed observation.
fn due_to(what: &str, error: &str) -> (out: String)
    ensures
        out@ == bullet_line(what@ + error@ + "`"@),
{
    let mut point = what.to_owned();
    point.append(error);
    point.append("`");
    bullet_text(point.as_str())
}

/// The report on a path that was resolved.
fn happy_report(path: &str, found: &HappyPath) -> (out: String)
    ensures
        out@ == happy_text(path@, found@),
{
    let mut out = headline("exists ", path);
    add_absolute(&mut out, path, &found.absolute);
    match &found.symlink_target {
        Some(target) => {
            let mut links = labelled("Canonical: ", found.canonical.display().as_str());
            links.append(labelled("Symlink target: ", target.display().as_str()).as_str());
            out.append(links.as_str());
        },
        None => {
            assert(out@ + Seq::<char>::empty() =~= out@);
        },
    }
    let mut note = "(".to_owned();
    note.append(found.resolved_type.as_str());
    note.append(
        append_if(
            ": ",
            conditional_perms(found.read, found.write, found.execute).as_str(),
        ).as_str(),
    );
    note.append(")");
    let listing = marked_dir(&found.parent, &found.absolute, note.as_str());
    out.append(bullet_text(listing.as_str()).as_str());
    out
}

/// The report on an obstacle, without what a look further up adds to it.
fn unhappy_report(path: &str, failure: &UnhappyPath) -> (out: String)
    ensures
        out@ == unhappy_text(path@, failure@),
{
    match failure {
        UnhappyPath::AbsPathError(AbsPathError::PathIsEmpty(given)) => {
            let mut out = "path ".to_owned();
            out.append(quote(given.as_str()).as_str());
            out.append(" is empty");
            out.append("\n");
            out
        },
        UnhappyPath::AbsPathError(AbsPathError::CannotReadCWD(given, error)) => {
            let mut out = quote(given.as_str());
            out.append("\n");
            out.append(
                labelled("Cannot read current working directory: ", error.message()).as_str(),
            );
            out
        },
        UnhappyPath::IsRoot(absolute) => headline("is root ", absolute.as_str()),
        UnhappyPath::ParentProblem { absolute, .. } => {
            let mut out = headline("cannot access ", path);
            add_absolute(&mut out, path, absolute);
            out
        },
        UnhappyPath::DoesNotExist { absolute, parent } => {
            let mut out = headline("does not exist ", path);
            add_absolute(&mut out, path, absolute);
            let mut missing = "Missing ".to_owned();
            missing.append(quote(filename_or_path(path).as_str()).as_str());
            missing.append(" from parent directory:\n");
            missing.append(plain_dir(parent).as_str());
            out.append(bullet_text(missing.as_str()).as_str());
            if !parent.write {
                out.append(
                    bullet_text(
                        "Parent directory is missing write permissions (cannot create, delete, or modify files)",
                    ).as_str(),
                );
            } else {
                assert(out@ + Seq::<char>::empty() =~= out@);
            }
            out
        },
        UnhappyPath::CannotCanonicalize { absolute, parent, error } => {
            let mut out = presence(path, absolute, parent);
            add_absolute(&mut out, path, absolute);
            out.append(due_to("Cannot canonicalize due to error `", error.message()).as_str());
            out.append(bullet_text(marked_dir(parent, absolute, "(exists)").as_str()).as_str());
            out
        },
        UnhappyPath::CannotMetadata { absolute, canonical, parent, error } => {
            let mut out = presence(path, absolute, parent);
            add_absolute(&mut out, path, absolute);
            out.append(labelled("Canonical: ", canonical.display().as_str()).as_str());
            out.append(due_to("Cannot read metadata due to error `", error.message()).as_str());
            out.append(bullet_text(marked_dir(parent, absolute, "(exists)").as_str()).as_str());
            out
        },
        UnhappyPath::CannotReadLink { absolute, canonical, parent, error } => {
            let mut out = presence(path, absolute, parent);
            add_absolute(&mut out, path, absolute);
            out.append(labelled("Canonical: ", canonical.display().as_str()).as_str());
            out.append(due_to("Cannot readlink due to error `", error.message()).as_str());
            out.append(bullet_text(marked_dir(parent, absolute, "(exists)").as_str()).as_str());
            out
        },
    }
}

/// The report on an outcome.
fn outcome_report(path: &str, outcome: &Result<HappyPath, UnhappyPath>) -> (out: String)
    ensures
        out@ == outcome_text(path@, result_deep_view(*outcome)),
{
    match outcome {
        Ok(found) => happy_report(path, found),
        Err(failure) => unhappy_report(path, failure),
    }
}

impl PathFacts {
    #[verifier::type_invariant]
    spec fn holds_together(self) -> bool {
        valid(self@)
    }

    /// Starts gathering facts about `path`. Nothing is observed yet: the
    /// facts say which observation they want.
    pub fn new(path: &str) -> (out: PathFacts)
        ensures
            out@ == begun(path@),
            valid(out@),
    {
        let state = state(path);
        proof {
            lemma_coherence(path@, started(path@), AnswerView::Access(false));
        }
        PathFacts { path: path.to_owned(), state, prior: None }
    }

    /// The path as it was given.
    pub fn path(&self) -> (out: &str)
        ensures
            out@ == self@.path,
    {
        self.path.as_str()
    }

    /// The observation wanted next, or `None` when the facts are complete.
    pub fn pending(&self) -> (out: Option<Probe>)
        ensures
            out.deep_view() == wanted(self@),
            valid(self@),
    {
        proof {
            use_type_invariant(self);
        }
        match self.state.probe() {
            Some(probe) => Some(probe),
            None => match &self.prior {
                Some(prior) => prior.state.probe(),
                None => None,
            },
        }
    }

    /// Takes the answer to the observation that was wanted. An answer of
    /// another kind is dropped.
    pub fn observe(self, answer: Answer) -> (out: PathFacts)
        ensures
            out@ == observed(self@, answer@),
            valid(out@),
    {
        if let Answer::WorkingDirectory(Ok(cwd)) = &answer {
            proof {
                use_type_invariant(cwd);
            }
        }
        proof {
            use_type_invariant(&self);
            law_facts_get_complete(self@, answer@);
        }
        let PathFacts { path, state, prior } = self;
        if state.outcome().is_none() {
            let state = state.advance(answer);
            let prior = look_up(&state);
            PathFacts { path, state, prior }
        } else {
            match prior {
                Some(Prior { dir, state: above }) => {
                    let next = above.advance(answer);
                    let prior = match look_up(&next) {
                        Some(higher) => Some(higher),
                        None => Some(Prior { dir, state: next }),
                    };
                    PathFacts { path, state, prior }
                },
                None => PathFacts { path, state, prior: None },
            }
        }
    }

    /// How the resolution of the path ended, once it has.
    pub fn outcome(&self) -> (out: Option<&Result<HappyPath, UnhappyPath>>)
        ensures
            match self@.state {
                ResolutionView::Done(outcome) => out matches Some(held) && result_deep_view(*held)
                    == outcome && sound(outcome),
                _ => out is None,
            },
    {
        self.state.outcome()
    }

    /// The report on the path, once the facts are complete.
    pub fn report(&self) -> (out: Option<String>)
        ensures
            out.deep_view() == report_text(self@),
            out is Some <==> wanted(self@) is None,
    {
        proof {
            use_type_invariant(self);
            law_facts_get_complete(self@, AnswerView::Access(false));
        }
        match self.state.outcome() {
            None => None,
            Some(outcome) => {
                let mut out = outcome_report(self.path.as_str(), outcome);
                match &self.prior {
                    None => Some(out),
                    Some(prior) => match prior.state.outcome() {
                        None => None,
                        Some(above) => {
                            let nested = outcome_report(prior.dir.as_str(), above);
                            let file = match above {
                                Ok(found) => match found.resolved_type {
                                    ResolvedType::File => true,
                                    ResolvedType::Dir => false,
                                },
                                Err(_) => false,
                            };
                            if file {
                                let mut added = bullet_text("Prior path is not a directory");
                                added.append(labelled("Prior path ", nested.as_str()).as_str());
                                out.append(added.as_str());
                            } else {
                                out.append(labelled("Prior directory ", nested.as_str()).as_str());
                            }
                            Some(out)
                        },
                    },
                }
            },
        }
    }
}

/// The directory to look at after a resolution, with its resolution
/// started.
fn look_up(state: &Resolution) -> (out: Option<Prior>)
    ensures
        match raised(state@) {
            Some((dir, above)) => out matches Some(prior) && prior.dir@ == dir && prior.state@
                == above,
            None => out is None,
        },
{
    match state.outcome() {
        Some(Err(UnhappyPath::ParentProblem { parent, .. })) => Some(
            Prior { dir: parent.clone(), state: crate::resolution::state(parent.as_str()) },
        ),
        _ => None,
    }
}

} // verus!
