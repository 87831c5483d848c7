//! The agent-sandbox `Sandbox` resource, as far as the operator sets or reads it.

use vstd::prelude::*;

use crate::crd::{Condition, ConditionView};
use crate::objects::{
    ObjectMeta, ObjectMetaView, PersistentVolumeClaimSpec, PersistentVolumeClaimSpecView,
    PodTemplateSpec, PodTemplateSpecView,
};

verus! {

/// An embedded volume claim: metadata and desired state, without a type of its own.
#[derive(Clone, Debug, Default)]
pub struct VolumeClaimTemplate {
    /// Metadata.
    pub metadata: ObjectMeta,
    /// Desired state.
    pub spec: Option<PersistentVolumeClaimSpec>,
}

/// What [`VolumeClaimTemplate`] holds.
#[verifier::ext_equal]
pub struct VolumeClaimTemplateView {
    pub metadata: ObjectMetaView,
    pub spec: Option<PersistentVolumeClaimSpecView>,
}

impl DeepView for VolumeClaimTemplate {
    type V = VolumeClaimTemplateView;

    open spec fn deep_view(&self) -> VolumeClaimTemplateView {
        VolumeClaimTemplateView { metadata: self.metadata.deep_view(), spec: self.spec.deep_view() }
    }
}

/// Desired state of a `Sandbox`.
#[derive(Clone, Debug)]
pub struct SandboxSpec {
    /// Pod template for the sandbox's single pod.
    pub pod_template: PodTemplateSpec,
    /// Whether to provision a headless Service, and with it a stable DNS name.
    pub service: Option<bool>,
    /// `Running` or `Suspended`.
    pub operating_mode: Option<String>,
    /// Volume claims materialized for the sandbox; they persist across restarts.
    pub volume_claim_templates: Option<Vec<VolumeClaimTemplate>>,
}

/// What [`SandboxSpec`] holds.
#[verifier::ext_equal]
pub struct SandboxSpecView {
    pub pod_template: PodTemplateSpecView,
    pub service: Option<bool>,
    pub operating_mode: Option<Seq<char>>,
    pub volume_claim_templates: Option<Seq<VolumeClaimTemplateView>>,
}

impl DeepView for SandboxSpec {
    type V = SandboxSpecView;

    open spec fn deep_view(&self) -> SandboxSpecView {
        SandboxSpecView {
            pod_template: self.pod_template.deep_view(),
            service: self.service.deep_view(),
            operating_mode: self.operating_mode.deep_view(),
            volume_claim_templates: self.volume_claim_templates.deep_view(),
        }
    }
}

/// Observed state of a `Sandbox`.
#[derive(Clone, Debug, Default)]
pub struct SandboxStatus {
    /// Stable in-cluster DNS name for the sandbox's Service.
    pub service_fqdn: Option<String>,
    /// Conditions that agent-sandbox reports. Its `Ready` is `True` only once the pod is running,
    /// passes its readiness probe, has an IP address, and the Service is ready.
    pub conditions: Vec<Condition>,
}

/// What [`SandboxStatus`] holds.
#[verifier::ext_equal]
pub struct SandboxStatusView {
    pub service_fqdn: Option<Seq<char>>,
    pub conditions: Seq<ConditionView>,
}

impl DeepView for SandboxStatus {
    type V = SandboxStatusView;

    open spec fn deep_view(&self) -> SandboxStatusView {
        SandboxStatusView {
            service_fqdn: self.service_fqdn.deep_view(),
            conditions: self.conditions.deep_view(),
        }
    }
}

/// The agent-sandbox `Sandbox` backing a task.
#[derive(Clone, Debug)]
pub struct Sandbox {
    /// Metadata.
    pub metadata: ObjectMeta,
    /// Desired state.
    pub spec: SandboxSpec,
    /// Observed state.
    pub status: Option<SandboxStatus>,
}

/// What [`Sandbox`] holds.
#[verifier::ext_equal]
pub struct SandboxView {
    pub metadata: ObjectMetaView,
    pub spec: SandboxSpecView,
    pub status: Option<SandboxStatusView>,
}

impl DeepView for Sandbox {
    type V = SandboxView;

    open spec fn deep_view(&self) -> SandboxView {
        SandboxView {
            metadata: self.metadata.deep_view(),
            spec: self.spec.deep_view(),
            status: self.status.deep_view(),
        }
    }
}

impl Sandbox {
    /// A Sandbox of the given name that nothing has been observed for yet.
    pub fn new(name: &str, spec: SandboxSpec) -> (r: Sandbox)
        ensures
            r.deep_view().metadata.name == Some(name@),
            r.metadata.generate_name is None,
            r.metadata.namespace is None,
            r.metadata.uid is None,
            r.metadata.generation is None,
            r.metadata.labels is None,
            r.metadata.owner_references is None,
            r.spec == spec,
            r.status is None,
    {
        Sandbox { metadata: ObjectMeta::named(name), spec, status: None }
    }
}

} // verus!
