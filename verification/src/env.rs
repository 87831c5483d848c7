//! Environment variables of a container.

use vstd::prelude::*;

use crate::objects::{
    EnvVar, EnvVarSource, EnvVarSourceView, EnvVarView, SecretKeySelector, SecretKeySelectorView,
};

verus! {

impl EnvVarView {
    /// A variable whose value stands in the pod spec.
    pub open spec fn plain(name: Seq<char>, value: Seq<char>) -> EnvVarView {
        EnvVarView { name, value: Some(value), value_from: None }
    }

    /// A variable that is filled from a Secret when the pod starts, and must be there.
    pub open spec fn from_secret(name: Seq<char>, secret: Seq<char>, key: Seq<char>) -> EnvVarView {
        EnvVarView {
            name,
            value: None,
            value_from: Some(
                EnvVarSourceView {
                    secret_key_ref: Some(
                        SecretKeySelectorView { name: secret, key, optional: Some(false) },
                    ),
                },
            ),
        }
    }

    /// Whether the variable either stands in the pod spec or is filled from a Secret, never both.
    pub open spec fn is_single_sourced(self) -> bool {
        self.value is Some <==> self.value_from is None
    }
}

/// A variable whose value stands in the pod spec.
pub fn plain(name: &str, value: &str) -> (r: EnvVar)
    ensures
        r.deep_view() == EnvVarView::plain(name@, value@),
{
    EnvVar { name: name.to_string(), value: Some(value.to_string()), value_from: None }
}

/// A variable that is filled from a Secret when the pod starts. The value itself never sits in the
/// pod spec.
pub fn from_secret(name: &str, secret: &str, key: &str) -> (r: EnvVar)
    ensures
        r.deep_view() == EnvVarView::from_secret(name@, secret@, key@),
{
    EnvVar {
        name: name.to_string(),
        value: None,
        value_from: Some(
            EnvVarSource {
                secret_key_ref: Some(
                    SecretKeySelector {
                        name: secret.to_string(),
                        key: key.to_string(),
                        optional: Some(false),
                    },
                ),
            },
        ),
    }
}

} // verus!
