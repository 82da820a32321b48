//! Failures of the control plane.
use vstd::prelude::*;
use vstd::string::*;

use crate::text;

verus! {

/// A strict authority-document or lifecycle invariant failed closed.
#[derive(Debug, PartialEq, Eq)]
pub enum ControlPlaneError {
    /// Authority JSON was not strict or did not match its schema.
    InvalidDocument { kind: &'static str, detail: String },
    /// A canonical digest was malformed or did not match the bytes.
    DigestMismatch { subject: String },
    /// Authority documents did not close over the same identity.
    AuthorityMismatch { detail: String },
    /// Store admission rejected a Bundle or Artifact.
    AdmissionRejected { detail: String },
    /// No deterministic implementation variant could be selected.
    ResolutionFailed { detail: String },
    /// A Generation transition violated fencing or lifecycle rules.
    TransitionRejected { detail: String },
    /// Host staging or shutdown failed.
    HostFailure { detail: String },
    /// A local Store operation failed.
    StoreFailure { detail: String },
}

/// What a failure says, with its text as a sequence of characters.
pub enum ErrorView {
    InvalidDocument { kind: Seq<char>, detail: Seq<char> },
    DigestMismatch { subject: Seq<char> },
    AuthorityMismatch { detail: Seq<char> },
    AdmissionRejected { detail: Seq<char> },
    ResolutionFailed { detail: Seq<char> },
    TransitionRejected { detail: Seq<char> },
    HostFailure { detail: Seq<char> },
    StoreFailure { detail: Seq<char> },
}

impl View for ControlPlaneError {
    type V = ErrorView;

    open spec fn view(&self) -> ErrorView {
        match *self {
            ControlPlaneError::InvalidDocument { kind, detail } => ErrorView::InvalidDocument {
                kind: kind@,
                detail: detail@,
            },
            ControlPlaneError::DigestMismatch { subject } => ErrorView::DigestMismatch {
                subject: subject@,
            },
            ControlPlaneError::AuthorityMismatch { detail } => ErrorView::AuthorityMismatch {
                detail: detail@,
            },
            ControlPlaneError::AdmissionRejected { detail } => ErrorView::AdmissionRejected {
                detail: detail@,
            },
            ControlPlaneError::ResolutionFailed { detail } => ErrorView::ResolutionFailed {
                detail: detail@,
            },
            ControlPlaneError::TransitionRejected { detail } => ErrorView::TransitionRejected {
                detail: detail@,
            },
            ControlPlaneError::HostFailure { detail } => ErrorView::HostFailure { detail: detail@ },
            ControlPlaneError::StoreFailure { detail } => ErrorView::StoreFailure { detail: detail@ },
        }
    }
}

/// The failure of a transition for the stated reason.
pub open spec fn rejection(detail: Seq<char>) -> ErrorView {
    ErrorView::TransitionRejected { detail }
}

/// The text that a failure shows to an operator.
pub open spec fn shown(error: ErrorView) -> Seq<char> {
    match error {
        ErrorView::InvalidDocument { kind, detail } => "invalid "@ + kind + " document: "@ + detail,
        ErrorView::DigestMismatch { subject } => "digest mismatch for "@ + subject,
        ErrorView::AuthorityMismatch { detail } => detail,
        ErrorView::AdmissionRejected { detail } => detail,
        ErrorView::ResolutionFailed { detail } => detail,
        ErrorView::TransitionRejected { detail } => detail,
        ErrorView::HostFailure { detail } => detail,
        ErrorView::StoreFailure { detail } => detail,
    }
}

impl ControlPlaneError {
    /// The text that the failure shows to an operator.
    pub fn message(&self) -> (r: String)
        ensures
            r@ == shown(self@),
    {
        match self {
            ControlPlaneError::InvalidDocument { kind, detail } => {
                let mut r = text::around("invalid ", kind, " document: ");
                r.append(detail.as_str());
                r
            },
            ControlPlaneError::DigestMismatch { subject } => {
                let mut r = "digest mismatch for ".to_owned();
                r.append(subject.as_str());
                r
            },
            ControlPlaneError::AuthorityMismatch { detail } => detail.clone(),
            ControlPlaneError::AdmissionRejected { detail } => detail.clone(),
            ControlPlaneError::ResolutionFailed { detail } => detail.clone(),
            ControlPlaneError::TransitionRejected { detail } => detail.clone(),
            ControlPlaneError::HostFailure { detail } => detail.clone(),
            ControlPlaneError::StoreFailure { detail } => detail.clone(),
        }
    }
}

impl Clone for ControlPlaneError {
    fn clone(&self) -> (r: Self)
        ensures
            r@ == self@,
    {
        match self {
            ControlPlaneError::InvalidDocument { kind, detail } => ControlPlaneError::InvalidDocument {
                kind,
                detail: detail.clone(),
            },
            ControlPlaneError::DigestMismatch { subject } => ControlPlaneError::DigestMismatch {
                subject: subject.clone(),
            },
            ControlPlaneError::AuthorityMismatch { detail } => ControlPlaneError::AuthorityMismatch {
                detail: detail.clone(),
            },
            ControlPlaneError::AdmissionRejected { detail } => ControlPlaneError::AdmissionRejected {
                detail: detail.clone(),
            },
            ControlPlaneError::ResolutionFailed { detail } => ControlPlaneError::ResolutionFailed {
                detail: detail.clone(),
            },
            ControlPlaneError::TransitionRejected { detail } => ControlPlaneError::TransitionRejected {
                detail: detail.clone(),
            },
            ControlPlaneError::HostFailure { detail } => ControlPlaneError::HostFailure {
                detail: detail.clone(),
            },
            ControlPlaneError::StoreFailure { detail } => ControlPlaneError::StoreFailure {
                detail: detail.clone(),
            },
        }
    }
}

/// A rejected transition.
pub fn rejected(detail: &str) -> (r: ControlPlaneError)
    ensures
        r@ == rejection(detail@),
{
    ControlPlaneError::TransitionRejected { detail: detail.to_owned() }
}

/// A transition rejected with a text about one subject.
pub fn rejected_about(prefix: &str, subject: &str, suffix: &str) -> (r: ControlPlaneError)
    ensures
        r@ == rejection(prefix@ + subject@ + suffix@),
{
    ControlPlaneError::TransitionRejected { detail: text::around(prefix, subject, suffix) }
}


/// What an operator is shown ends in what the failure is about; only a document and a digest are
/// introduced.
pub proof fn a_message_ends_in_its_detail(error: ErrorView)
    ensures
        match error {
            ErrorView::InvalidDocument { kind, detail } => detail.is_suffix_of(shown(error)) && shown(error).subrange(8, 8int + kind.len()) == kind,
            ErrorView::DigestMismatch { subject } => subject.is_suffix_of(shown(error)) && shown(error).len() == 20 + subject.len(),
            ErrorView::AuthorityMismatch { detail } => shown(error) == detail,
            ErrorView::AdmissionRejected { detail } => shown(error) == detail,
            ErrorView::ResolutionFailed { detail } => shown(error) == detail,
            ErrorView::TransitionRejected { detail } => shown(error) == detail,
            ErrorView::HostFailure { detail } => shown(error) == detail,
            ErrorView::StoreFailure { detail } => shown(error) == detail,
        },
{
    reveal_strlit("invalid ");
    reveal_strlit(" document: ");
    reveal_strlit("digest mismatch for ");
    let all = shown(error);
    match error {
        ErrorView::InvalidDocument { kind, detail } => {
            assert(detail =~= all.subrange(all.len() - detail.len(), all.len() as int));
            assert(all.subrange(8, 8int + kind.len()) =~= kind);
        },
        ErrorView::DigestMismatch { subject } => {
            assert(subject =~= all.subrange(all.len() - subject.len(), all.len() as int));
        },
        _ => {},
    }
}
} // verus!
