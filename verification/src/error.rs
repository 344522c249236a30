use vstd::prelude::*;

verus! {

/// Failures reported by the host.
///
/// Link death is deliberately not part of this taxonomy: it is a first-class
/// expected outcome of supervision, surfaced through the mailbox instead.
#[derive(Debug, Clone, PartialEq, Eq, Structural)]
pub enum HperwasmError {
    /// An opaque host-reported failure, carrying the host's error identifier.
    Error(u64),
    /// The host refused a privileged allocation, such as a configuration handle.
    PermissionDenied,
}

impl HperwasmError {
    pub(crate) fn from(id: u64) -> (e: HperwasmError)
        ensures
            e == HperwasmError::Error(id),
    {
        HperwasmError::Error(id)
    }

    /// A human-readable description of the failure.
    pub fn describe(&self) -> (r: String)
        ensures
            self is Error ==> r@ == "host error"@,
            self is PermissionDenied ==> r@ == "Permission denied"@,
    {
        match self {
            HperwasmError::Error(_) => "host error".to_owned(),
            HperwasmError::PermissionDenied => "Permission denied".to_owned(),
        }
    }
}

} // verus!
