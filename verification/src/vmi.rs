//! Shared classification of introspection failures.
use vstd::prelude::*;

verus! {

/// The class of a virtual-machine-introspection failure, used as a bounded
/// metric label.
#[derive(Debug, Clone, Copy, PartialEq, Eq, Structural)]
pub enum VmiErrorKind {
    Unsupported,
    MissingProfile,
    Malformed,
    InconsistentSnapshot,
    TemporarilyUnavailable,
    Unmapped,
    PermissionDenied,
    Backend,
}

impl VmiErrorKind {
    pub open spec fn name(self) -> Seq<char> {
        match self {
            VmiErrorKind::Unsupported => "unsupported"@,
            VmiErrorKind::MissingProfile => "missing_profile"@,
            VmiErrorKind::Malformed => "malformed"@,
            VmiErrorKind::InconsistentSnapshot => "inconsistent_snapshot"@,
            VmiErrorKind::TemporarilyUnavailable => "temporarily_unavailable"@,
            VmiErrorKind::Unmapped => "unmapped"@,
            VmiErrorKind::PermissionDenied => "permission_denied"@,
            VmiErrorKind::Backend => "backend"@,
        }
    }

    pub fn as_str(self) -> (r: &'static str)
        ensures
            r@ == self.name(),
    {
        match self {
            VmiErrorKind::Unsupported => "unsupported",
            VmiErrorKind::MissingProfile => "missing_profile",
            VmiErrorKind::Malformed => "malformed",
            VmiErrorKind::InconsistentSnapshot => "inconsistent_snapshot",
            VmiErrorKind::TemporarilyUnavailable => "temporarily_unavailable",
            VmiErrorKind::Unmapped => "unmapped",
            VmiErrorKind::PermissionDenied => "permission_denied",
            VmiErrorKind::Backend => "backend",
        }
    }
}

} // verus!
