use vstd::prelude::*;

verus! {

/// Why a snapshot names no focused window although its focus paths are
/// consistent.
#[derive(Clone, Copy, Debug, PartialEq, Eq, Structural)]
pub enum NoFocusReason {
    /// The descent reached a node that is not focused and whose focus path
    /// is empty: nothing in the snapshot holds the focus.
    NoFocusedNode,
    /// The focused node carries no window handle: it is a container, such
    /// as an empty workspace, and not a window on screen.
    NoWindow,
}

/// The ways in which resolving the focused window of a snapshot fails.
#[derive(Clone, Copy, Debug, PartialEq, Eq, Structural)]
pub enum ResolveError {
    /// The focus path of a node on the way down names an id that none of
    /// that node's children carries.
    TreeInconsistency,
    /// The snapshot is consistent as far as the descent went, but no window
    /// holds the focus.
    NoFocusedWindow(NoFocusReason),
}

impl ResolveError {
    /// The one-line description of this failure, as a sequence of characters.
    pub open spec fn text(self) -> Seq<char> {
        match self {
            ResolveError::TreeInconsistency => "inconsistent window tree"@,
            ResolveError::NoFocusedWindow(NoFocusReason::NoFocusedNode) => "no focused node found"@,
            ResolveError::NoFocusedWindow(NoFocusReason::NoWindow) => "focused element has no associated window"@,
        }
    }

    /// Describes this failure in one line, for a caller that reports it.
    pub fn message(&self) -> (msg: &'static str)
        ensures
            msg@ == self.text(),
    {
        match self {
            ResolveError::TreeInconsistency => "inconsistent window tree",
            ResolveError::NoFocusedWindow(NoFocusReason::NoFocusedNode) => "no focused node found",
            ResolveError::NoFocusedWindow(NoFocusReason::NoWindow) => "focused element has no associated window",
        }
    }
}

} // verus!
