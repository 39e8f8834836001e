//! Build diagnostics: the error taxonomy of the bundler core.
//!
//! A diagnostic is either fatal (it aborts the build and no assets are
//! produced) or a warning (it is surfaced beside a successful result).

use vstd::prelude::*;

verus! {

/// What went wrong, by class: specifier resolution, parsing, linking
/// (missing export, re-export cycle), interop detection, the loader's
/// message channel, or a malformed sourcemap handed in by a plugin.
#[derive(Clone, Copy, PartialEq, Eq, Structural, Debug)]
pub enum EventKind {
    ResolutionError,
    ParseError,
    MissingExport,
    ReExportCycle,
    InteropAmbiguity,
    ChannelClosed,
    InvalidSourcemap,
    BundleClosed,
    InvalidOption,
}

/// Whether a diagnostic of the given kind aborts the build.
///
/// Interop ambiguity is always downgraded to a warning; a missing
/// export aborts only under strict resolution, which the caller
/// decides, so it is non-fatal here.
pub open spec fn spec_is_fatal(kind: EventKind) -> bool {
    match kind {
        EventKind::InteropAmbiguity => false,
        EventKind::MissingExport => false,
        _ => true,
    }
}

/// One diagnostic: a kind and a human-readable message.
#[derive(Clone, PartialEq, Eq, Debug)]
pub struct BuildDiagnostic {
    pub kind: EventKind,
    pub message: String,
}

impl BuildDiagnostic {
    /// Builds a diagnostic of the given kind.
    pub fn new(kind: EventKind, message: String) -> (r: BuildDiagnostic)
        ensures
            r.kind == kind,
            r.message == message,
    {
        BuildDiagnostic { kind, message }
    }

    /// The class of this diagnostic.
    pub fn event_kind(&self) -> (r: EventKind)
        ensures
            r == self.kind,
    {
        self.kind
    }

    /// True exactly when this diagnostic aborts the build.
    pub fn is_fatal(&self) -> (r: bool)
        ensures
            r == spec_is_fatal(self.kind),
    {
        match self.kind {
            EventKind::InteropAmbiguity => false,
            EventKind::MissingExport => false,
            _ => true,
        }
    }
}

/// True when some diagnostic in the batch is fatal.
pub open spec fn spec_any_fatal(diags: Seq<BuildDiagnostic>) -> bool {
    exists|i: int| 0 <= i < diags.len() && spec_is_fatal(diags[i].kind)
}

/// Scans a batch for a fatal diagnostic.
pub fn any_fatal(diags: &Vec<BuildDiagnostic>) -> (r: bool)
    ensures
        r == spec_any_fatal(diags@),
{
    let mut i: usize = 0;
    while i < diags.len()
        invariant
            0 <= i <= diags.len(),
            forall|j: int| 0 <= j < i ==> !spec_is_fatal(diags@[j].kind),
        decreases diags.len() - i,
    {
        if diags[i].is_fatal() {
            return true;
        }
        i += 1;
    }
    false
}

/// Options that shape how a diagnostic renders its message; the
/// working directory lets paths be shown relative to the build root.
pub struct DiagnosticOptions {
    pub cwd: String,
}

/// One build event that can be turned into a diagnostic: its kind and
/// its rendered message.
pub trait BuildEvent {
    /// The class of the event.
    fn kind(&self) -> EventKind;

    /// The message shown for the event.
    fn message(&self, opts: &DiagnosticOptions) -> String;
}

/// A sourcemap handed in by a plugin hook failed to parse as JSON.
#[derive(Debug)]
pub struct InvalidSourcemap {
    pub message: String,
}

impl BuildEvent for InvalidSourcemap {
    fn kind(&self) -> (r: EventKind)
        ensures
            r == EventKind::InvalidSourcemap,
    {
        EventKind::InvalidSourcemap
    }

    fn message(&self, _opts: &DiagnosticOptions) -> (r: String)
        ensures
            r@ == self.message@,
    {
        self.message.clone()
    }
}

} // verus!
