//! The interface to the filesystem: what the library asks to be observed, and
//! the plain values it takes as answers.
use vstd::prelude::*;
use crate::abs_path::AbsPath;
use crate::text::result_deep_view;

verus! {

/// Why an observation of the filesystem failed, as the operating system
/// worded it.
#[derive(Debug)]
pub struct ProbeError {
    message: String,
}

impl View for ProbeError {
    type V = Seq<char>;

    closed spec fn view(&self) -> Seq<char> {
        self.message@
    }
}

impl DeepView for ProbeError {
    type V = Seq<char>;

    open spec fn deep_view(&self) -> Seq<char> {
        self@
    }
}

impl Clone for ProbeError {
    fn clone(&self) -> (out: Self)
        ensures
            out == *self,
    {
        ProbeError { message: self.message.clone() }
    }
}

impl ProbeError {
    /// A failure with the message that the operating system gave.
    pub fn new(message: &str) -> (out: ProbeError)
        ensures
            out@ == message@,
    {
        ProbeError { message: message.to_owned() }
    }

    /// The message of the failure.
    pub fn message(&self) -> (out: &str)
        ensures
            out@ == self@,
    {
        self.message.as_str()
    }
}

/// A kind of access that can be asked about.
#[derive(Debug, Clone, Copy, PartialEq, Eq, Structural)]
pub enum AccessMode {
    Read,
    Write,
    Execute,
}

/// One observation of the filesystem that a resolution asks for.
#[derive(Debug)]
pub enum Probe {
    /// The working directory of the process.
    WorkingDirectory,
    /// The canonical form of the path: all symlinks resolved.
    Canonicalize(String),
    /// The names of the entries of the directory at the path.
    ListDirectory(String),
    /// Whether the path, symlinks followed, is a directory.
    Metadata(String),
    /// Whether the path itself is a symlink. A failure to tell counts as no.
    IsSymlink(String),
    /// The target of the symlink at the path.
    ReadLink(String),
    /// Whether the path can likely be accessed in the given way. A failure
    /// to tell counts as no.
    Access(String, AccessMode),
}

/// The content of a [`Probe`].
pub enum ProbeView {
    WorkingDirectory,
    Canonicalize(Seq<char>),
    ListDirectory(Seq<char>),
    Metadata(Seq<char>),
    IsSymlink(Seq<char>),
    ReadLink(Seq<char>),
    Access(Seq<char>, AccessMode),
}

impl View for Probe {
    type V = ProbeView;

    open spec fn view(&self) -> ProbeView {
        match self {
            Probe::WorkingDirectory => ProbeView::WorkingDirectory,
            Probe::Canonicalize(path) => ProbeView::Canonicalize(path@),
            Probe::ListDirectory(path) => ProbeView::ListDirectory(path@),
            Probe::Metadata(path) => ProbeView::Metadata(path@),
            Probe::IsSymlink(path) => ProbeView::IsSymlink(path@),
            Probe::ReadLink(path) => ProbeView::ReadLink(path@),
            Probe::Access(path, mode) => ProbeView::Access(path@, *mode),
        }
    }
}

impl DeepView for Probe {
    type V = ProbeView;

    open spec fn deep_view(&self) -> ProbeView {
        self@
    }
}

/// What was observed, in answer to a probe of the same name.
#[derive(Debug)]
pub enum Answer {
    WorkingDirectory(Result<AbsPath, ProbeError>),
    Canonical(Result<String, ProbeError>),
    Listing(Result<Vec<String>, ProbeError>),
    Metadata(Result<bool, ProbeError>),
    IsSymlink(bool),
    LinkTarget(Result<String, ProbeError>),
    Access(bool),
}

/// The content of an [`Answer`].
pub enum AnswerView {
    WorkingDirectory(Result<Seq<char>, Seq<char>>),
    Canonical(Result<Seq<char>, Seq<char>>),
    Listing(Result<Seq<Seq<char>>, Seq<char>>),
    Metadata(Result<bool, Seq<char>>),
    IsSymlink(bool),
    LinkTarget(Result<Seq<char>, Seq<char>>),
    Access(bool),
}

impl View for Answer {
    type V = AnswerView;

    open spec fn view(&self) -> AnswerView {
        match self {
            Answer::WorkingDirectory(r) => AnswerView::WorkingDirectory(result_deep_view(*r)),
            Answer::Canonical(r) => AnswerView::Canonical(result_deep_view(*r)),
            Answer::Listing(r) => AnswerView::Listing(result_deep_view(*r)),
            Answer::Metadata(r) => AnswerView::Metadata(
                match r {
                    Ok(is_dir) => Ok(*is_dir),
                    Err(error) => Err(error@),
                },
            ),
            Answer::IsSymlink(yes) => AnswerView::IsSymlink(*yes),
            Answer::LinkTarget(r) => AnswerView::LinkTarget(result_deep_view(*r)),
            Answer::Access(yes) => AnswerView::Access(*yes),
        }
    }
}

} // verus!
