//! The vendor boundary.
//!
//! A backend is handed a captured sysfs [`Tree`] and never looks anywhere
//! else. That single rule is what makes hardware support contributable: a
//! captured directory tree from someone else's laptop is indistinguishable
//! from real `/sys` as far as a backend is concerned. Reading and writing the
//! real files is the caller's job: a backend answers what the state is and
//! which writes, in which order, bring the hardware to a profile.
use vstd::prelude::*;

use crate::sysfs::Tree;
use crate::types::{Capabilities, HwProfile, HwState};

verus! {

#[derive(Debug)]
pub enum Error {
    NoBackend,
    Unsupported(&'static str),
    BadValue(&'static str, String),
    /// Reading an attribute failed; `reason` is the system's own message.
    Read { path: String, reason: String },
    /// Writing an attribute failed; `reason` is the system's own message.
    Write { path: String, reason: String },
}

/// An [`Error`] with its texts as character sequences.
pub enum ErrorView {
    NoBackend,
    Unsupported(Seq<char>),
    BadValue(Seq<char>, Seq<char>),
    Read(Seq<char>, Seq<char>),
    Write(Seq<char>, Seq<char>),
}

impl View for Error {
    type V = ErrorView;

    open spec fn view(&self) -> ErrorView {
        match self {
            Error::NoBackend => ErrorView::NoBackend,
            Error::Unsupported(what) => ErrorView::Unsupported(what@),
            Error::BadValue(what, value) => ErrorView::BadValue(what@, value@),
            Error::Read { path, reason } => ErrorView::Read(path@, reason@),
            Error::Write { path, reason } => ErrorView::Write(path@, reason@),
        }
    }
}

/// The human-readable text of an error.
pub open spec fn error_message(e: ErrorView) -> Seq<char> {
    match e {
        ErrorView::NoBackend => "no supported hardware backend found for this machine"@,
        ErrorView::Unsupported(what) => "this machine does not support "@ + what,
        ErrorView::BadValue(what, value) => what + " does not accept the value "@ + value,
        ErrorView::Read(path, reason) => "reading "@ + path + ": "@ + reason,
        ErrorView::Write(path, reason) => "writing "@ + path + ": "@ + reason,
    }
}

impl Error {
    /// The error as a sentence, e.g. `this machine does not support fan modes`.
    pub fn message(&self) -> (r: String)
        ensures
            r@ == error_message(self@),
    {
        match self {
            Error::NoBackend => "no supported hardware backend found for this machine".to_owned(),
            Error::Unsupported(what) => {
                let mut s = "this machine does not support ".to_owned();
                s.append(what);
                s
            },
            Error::BadValue(what, value) => {
                let mut s = (*what).to_owned();
                s.append(" does not accept the value ");
                s.append(value.as_str());
                s
            },
            Error::Read { path, reason } => {
                let mut s = "reading ".to_owned();
                s.append(path.as_str());
                s.append(": ");
                s.append(reason.as_str());
                s
            },
            Error::Write { path, reason } => {
                let mut s = "writing ".to_owned();
                s.append(path.as_str());
                s.append(": ");
                s.append(reason.as_str());
                s
            },
        }
    }
}

/// One attribute write: `value` goes into the file at `path`.
#[derive(Debug, Clone, PartialEq, Eq)]
pub struct Write {
    pub path: String,
    pub value: String,
}

/// The writes of a plan, as (path, value) pairs.
pub open spec fn writes_view(w: Seq<Write>) -> Seq<(Seq<char>, Seq<char>)> {
    Seq::new(w.len(), |i: int| (w[i].path@, w[i].value@))
}

/// Implemented once per hardware vendor.
pub trait Backend {
    /// Stable identifier, used in logs, on the bus and in bug reports.
    fn name(&self) -> &'static str;

    /// Human-readable model, when the firmware exposes one.
    fn model(&self, tree: &Tree) -> Option<String>;

    fn capabilities(&self) -> Capabilities;

    fn read_state(&self, tree: &Tree) -> HwState;

    /// The writes that apply every field the profile sets, leaving the rest
    /// untouched, in the order they must happen.
    ///
    /// Validates against the capabilities first: asking for something the
    /// machine does not have is an [`Error::Unsupported`], not a write.
    fn apply(&self, profile: &HwProfile, tree: &Tree) -> Result<Vec<Write>, Error>;
}

/// A backend that can recognise its own hardware.
pub trait Probe: Backend + Sized {
    /// A backend if this tree belongs to hardware it handles.
    fn probe(tree: &Tree) -> Option<Self>;
}

} // verus!
