//! What the check reports: a severity, the place in the declaration that
//! it points at, and a message.

use vstd::prelude::*;

verus! {

/// How grave a diagnostic is: an error blocks the build, a warning only
/// informs.
#[derive(Clone, Copy, Debug, PartialEq, Eq)]
pub enum Severity {
    Error,
    Warning,
}

/// The part of the declaration that a diagnostic is attached to.
#[derive(Clone, Copy, Debug, PartialEq, Eq)]
pub enum Target {
    /// The item as a whole.
    Item,
    /// The name of the record.
    Name,
    /// The member at this position, counted from zero in declaration order.
    Member(usize),
}

/// One message for the host toolchain to surface.
#[derive(Clone, Debug, PartialEq, Eq)]
pub struct Diagnostic {
    pub severity: Severity,
    pub target: Target,
    pub message: String,
}

/// The mathematical value of a `Target`.
pub enum Place {
    Item,
    Name,
    Member(int),
}

/// The mathematical value of a `Diagnostic`.
pub struct Note {
    pub severity: Severity,
    pub place: Place,
    pub message: Seq<char>,
}

impl View for Target {
    type V = Place;

    open spec fn view(&self) -> Place {
        match *self {
            Target::Item => Place::Item,
            Target::Name => Place::Name,
            Target::Member(i) => Place::Member(i as int),
        }
    }
}

impl View for Diagnostic {
    type V = Note;

    open spec fn view(&self) -> Note {
        Note { severity: self.severity, place: self.target@, message: self.message@ }
    }
}

impl DeepView for Diagnostic {
    type V = Note;

    open spec fn deep_view(&self) -> Note {
        self@
    }
}

/// An error at `place`.
pub open spec fn error_at(place: Place, message: Seq<char>) -> Note {
    Note { severity: Severity::Error, place, message }
}

/// A warning at `place`.
pub open spec fn warning_at(place: Place, message: Seq<char>) -> Note {
    Note { severity: Severity::Warning, place, message }
}

impl Diagnostic {
    /// Builds an error.
    pub fn error(target: Target, message: String) -> (d: Diagnostic)
        ensures
            d@ == error_at(target@, message@),
    {
        Diagnostic { severity: Severity::Error, target, message }
    }

    /// Builds a warning.
    pub fn warning(target: Target, message: String) -> (d: Diagnostic)
        ensures
            d@ == warning_at(target@, message@),
    {
        Diagnostic { severity: Severity::Warning, target, message }
    }
}

} // verus!
