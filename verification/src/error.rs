//! The reconcile error shared by the `CalibanTask` and `Workspace` controllers.

use vstd::prelude::*;

verus! {

/// Reconcile error.
#[derive(Clone, Debug, PartialEq, Eq)]
pub enum Error {
    /// Kubernetes API error, as the client describes it.
    Kube(String),
    /// A task without a UID, which cannot own its children; the name of the task.
    MissingUid(String),
}

/// What an [`Error`] holds.
#[verifier::ext_equal]
pub enum ErrorView {
    Kube(Seq<char>),
    MissingUid(Seq<char>),
}

impl DeepView for Error {
    type V = ErrorView;

    open spec fn deep_view(&self) -> ErrorView {
        match self {
            Error::Kube(e) => ErrorView::Kube(e@),
            Error::MissingUid(name) => ErrorView::MissingUid(name@),
        }
    }
}

impl ErrorView {
    /// The error in words.
    pub open spec fn message(self) -> Seq<char> {
        match self {
            ErrorView::Kube(e) => "kube api: "@ + e,
            ErrorView::MissingUid(name) => "task '"@ + name + "' has no uid"@,
        }
    }
}

impl Error {
    /// The error in words.
    pub fn message(&self) -> (r: String)
        ensures
            r@ == self.deep_view().message(),
    {
        match self {
            Error::Kube(e) => "kube api: ".to_string().concat(e.as_str()),
            Error::MissingUid(name) => "task '".to_string().concat(name.as_str()).concat(
                "' has no uid",
            ),
        }
    }
}

/// An error says what the API said, or which task has no UID.
pub proof fn law_messages(x: Seq<char>)
    ensures
        ErrorView::Kube(x).message() == "kube api: "@ + x,
        ErrorView::MissingUid(x).message() == "task '"@ + x + "' has no uid"@,
{
}

} // verus!
