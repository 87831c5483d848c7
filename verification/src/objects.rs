//! The parts of the Kubernetes objects that the operator builds and reads, as plain data.

use vstd::prelude::*;

use crate::string_map::StringMap;

verus! {

/// A reference to the object that owns another one.
#[derive(Debug)]
pub struct OwnerReference {
    /// API version of the owner.
    pub api_version: String,
    /// Kind of the owner.
    pub kind: String,
    /// Name of the owner.
    pub name: String,
    /// UID of the owner.
    pub uid: String,
    /// Whether the owner manages the object.
    pub controller: Option<bool>,
    /// Whether the owner waits for the object on foreground deletion.
    pub block_owner_deletion: Option<bool>,
}

/// What [`OwnerReference`] holds.
#[verifier::ext_equal]
pub struct OwnerReferenceView {
    pub api_version: Seq<char>,
    pub kind: Seq<char>,
    pub name: Seq<char>,
    pub uid: Seq<char>,
    pub controller: Option<bool>,
    pub block_owner_deletion: Option<bool>,
}

impl DeepView for OwnerReference {
    type V = OwnerReferenceView;

    open spec fn deep_view(&self) -> OwnerReferenceView {
        OwnerReferenceView {
            api_version: self.api_version@,
            kind: self.kind@,
            name: self.name@,
            uid: self.uid@,
            controller: self.controller.deep_view(),
            block_owner_deletion: self.block_owner_deletion.deep_view(),
        }
    }
}

impl Clone for OwnerReference {
    fn clone(&self) -> (r: OwnerReference)
        ensures
            r.deep_view() == self.deep_view(),
    {
        OwnerReference {
            api_version: self.api_version.clone(),
            kind: self.kind.clone(),
            name: self.name.clone(),
            uid: self.uid.clone(),
            controller: self.controller,
            block_owner_deletion: self.block_owner_deletion,
        }
    }
}

/// The metadata of an object, as far as the operator reads or sets it.
#[derive(Clone, Debug, Default)]
pub struct ObjectMeta {
    /// Object name.
    pub name: Option<String>,
    /// Prefix of a name that the API server completes.
    pub generate_name: Option<String>,
    /// Namespace, of a namespaced object.
    pub namespace: Option<String>,
    /// UID, once the API server has stored the object.
    pub uid: Option<String>,
    /// Counts the changes of the desired state.
    pub generation: Option<i64>,
    /// Labels.
    pub labels: Option<StringMap>,
    /// Owners; the object goes when they all have.
    pub owner_references: Option<Vec<OwnerReference>>,
}

/// What [`ObjectMeta`] holds.
#[verifier::ext_equal]
pub struct ObjectMetaView {
    pub name: Option<Seq<char>>,
    pub generate_name: Option<Seq<char>>,
    pub namespace: Option<Seq<char>>,
    pub uid: Option<Seq<char>>,
    pub generation: Option<i64>,
    pub labels: Option<Map<Seq<char>, Seq<char>>>,
    pub owner_references: Option<Seq<OwnerReferenceView>>,
}

impl DeepView for ObjectMeta {
    type V = ObjectMetaView;

    open spec fn deep_view(&self) -> ObjectMetaView {
        ObjectMetaView {
            name: self.name.deep_view(),
            generate_name: self.generate_name.deep_view(),
            namespace: self.namespace.deep_view(),
            uid: self.uid.deep_view(),
            generation: self.generation.deep_view(),
            labels: self.labels.deep_view(),
            owner_references: self.owner_references.deep_view(),
        }
    }
}

/// Selects objects by their labels; without labels it selects all.
#[derive(Clone, Debug, Default)]
pub struct LabelSelector {
    /// Labels that a selected object carries.
    pub match_labels: Option<StringMap>,
}

/// What [`LabelSelector`] holds.
#[verifier::ext_equal]
pub struct LabelSelectorView {
    pub match_labels: Option<Map<Seq<char>, Seq<char>>>,
}

impl DeepView for LabelSelector {
    type V = LabelSelectorView;

    open spec fn deep_view(&self) -> LabelSelectorView {
        LabelSelectorView { match_labels: self.match_labels.deep_view() }
    }
}

/// One key of a Secret.
#[derive(Clone, Debug)]
pub struct SecretKeySelector {
    /// Name of the Secret.
    pub name: String,
    /// Key within it.
    pub key: String,
    /// Whether the pod may start without it.
    pub optional: Option<bool>,
}

/// What [`SecretKeySelector`] holds.
#[verifier::ext_equal]
pub struct SecretKeySelectorView {
    pub name: Seq<char>,
    pub key: Seq<char>,
    pub optional: Option<bool>,
}

impl DeepView for SecretKeySelector {
    type V = SecretKeySelectorView;

    open spec fn deep_view(&self) -> SecretKeySelectorView {
        SecretKeySelectorView {
            name: self.name@,
            key: self.key@,
            optional: self.optional.deep_view(),
        }
    }
}

/// Where the value of an environment variable comes from.
#[derive(Clone, Debug, Default)]
pub struct EnvVarSource {
    /// A key of a Secret.
    pub secret_key_ref: Option<SecretKeySelector>,
}

/// What [`EnvVarSource`] holds.
#[verifier::ext_equal]
pub struct EnvVarSourceView {
    pub secret_key_ref: Option<SecretKeySelectorView>,
}

impl DeepView for EnvVarSource {
    type V = EnvVarSourceView;

    open spec fn deep_view(&self) -> EnvVarSourceView {
        EnvVarSourceView { secret_key_ref: self.secret_key_ref.deep_view() }
    }
}

/// An environment variable of a container.
#[derive(Clone, Debug, Default)]
pub struct EnvVar {
    /// Variable name.
    pub name: String,
    /// The value, if it stands in the pod spec.
    pub value: Option<String>,
    /// Where the value comes from otherwise.
    pub value_from: Option<EnvVarSource>,
}

/// What [`EnvVar`] holds.
#[verifier::ext_equal]
pub struct EnvVarView {
    pub name: Seq<char>,
    pub value: Option<Seq<char>>,
    pub value_from: Option<EnvVarSourceView>,
}

impl DeepView for EnvVar {
    type V = EnvVarView;

    open spec fn deep_view(&self) -> EnvVarView {
        EnvVarView {
            name: self.name@,
            value: self.value.deep_view(),
            value_from: self.value_from.deep_view(),
        }
    }
}

/// A port that a container listens on.
#[derive(Clone, Debug)]
pub struct ContainerPort {
    /// Port number.
    pub container_port: i32,
    /// Port name.
    pub name: Option<String>,
}

/// What [`ContainerPort`] holds.
#[verifier::ext_equal]
pub struct ContainerPortView {
    pub container_port: i32,
    pub name: Option<Seq<char>>,
}

impl DeepView for ContainerPort {
    type V = ContainerPortView;

    open spec fn deep_view(&self) -> ContainerPortView {
        ContainerPortView { container_port: self.container_port, name: self.name.deep_view() }
    }
}

/// A volume mounted into a container.
#[derive(Clone, Debug)]
pub struct VolumeMount {
    /// Name of the volume.
    pub name: String,
    /// Where it is mounted.
    pub mount_path: String,
    /// Whether the container cannot write to it.
    pub read_only: Option<bool>,
}

/// What [`VolumeMount`] holds.
#[verifier::ext_equal]
pub struct VolumeMountView {
    pub name: Seq<char>,
    pub mount_path: Seq<char>,
    pub read_only: Option<bool>,
}

impl DeepView for VolumeMount {
    type V = VolumeMountView;

    open spec fn deep_view(&self) -> VolumeMountView {
        VolumeMountView {
            name: self.name@,
            mount_path: self.mount_path@,
            read_only: self.read_only.deep_view(),
        }
    }
}

/// A probe that opens a TCP connection.
#[derive(Clone, Debug)]
pub struct TCPSocketAction {
    /// Port to connect to.
    pub port: i32,
}

/// What [`TCPSocketAction`] holds.
#[verifier::ext_equal]
pub struct TCPSocketActionView {
    pub port: i32,
}

impl DeepView for TCPSocketAction {
    type V = TCPSocketActionView;

    open spec fn deep_view(&self) -> TCPSocketActionView {
        TCPSocketActionView { port: self.port }
    }
}

/// A health probe of a container.
#[derive(Clone, Debug)]
pub struct Probe {
    /// Connect to a TCP port.
    pub tcp_socket: Option<TCPSocketAction>,
    /// Seconds between two probes.
    pub period_seconds: Option<i32>,
    /// Failures in a row that count as a failure.
    pub failure_threshold: Option<i32>,
}

/// What [`Probe`] holds.
#[verifier::ext_equal]
pub struct ProbeView {
    pub tcp_socket: Option<TCPSocketActionView>,
    pub period_seconds: Option<i32>,
    pub failure_threshold: Option<i32>,
}

impl DeepView for Probe {
    type V = ProbeView;

    open spec fn deep_view(&self) -> ProbeView {
        ProbeView {
            tcp_socket: self.tcp_socket.deep_view(),
            period_seconds: self.period_seconds.deep_view(),
            failure_threshold: self.failure_threshold.deep_view(),
        }
    }
}

/// CPU and memory of a container.
#[derive(Clone, Debug)]
pub struct ResourceRequirements {
    /// What the scheduler reserves.
    pub requests: Option<StringMap>,
    /// What the container may not exceed.
    pub limits: Option<StringMap>,
}

/// What [`ResourceRequirements`] holds.
#[verifier::ext_equal]
pub struct ResourceRequirementsView {
    pub requests: Option<Map<Seq<char>, Seq<char>>>,
    pub limits: Option<Map<Seq<char>, Seq<char>>>,
}

impl DeepView for ResourceRequirements {
    type V = ResourceRequirementsView;

    open spec fn deep_view(&self) -> ResourceRequirementsView {
        ResourceRequirementsView {
            requests: self.requests.deep_view(),
            limits: self.limits.deep_view(),
        }
    }
}

/// A container of a pod.
#[derive(Clone, Debug)]
pub struct Container {
    /// Container name.
    pub name: String,
    /// Image to run.
    pub image: Option<String>,
    /// Entrypoint, in place of the image's.
    pub command: Option<Vec<String>>,
    /// Arguments to the entrypoint.
    pub args: Option<Vec<String>>,
    /// Environment variables.
    pub env: Option<Vec<EnvVar>>,
    /// Ports it listens on.
    pub ports: Option<Vec<ContainerPort>>,
    /// Volumes mounted into it.
    pub volume_mounts: Option<Vec<VolumeMount>>,
    /// CPU and memory.
    pub resources: Option<ResourceRequirements>,
    /// Tells whether it can serve.
    pub readiness_probe: Option<Probe>,
    /// Tells whether it has started.
    pub startup_probe: Option<Probe>,
    /// Tells whether it has to be restarted.
    pub liveness_probe: Option<Probe>,
}

/// What [`Container`] holds.
#[verifier::ext_equal]
pub struct ContainerView {
    pub name: Seq<char>,
    pub image: Option<Seq<char>>,
    pub command: Option<Seq<Seq<char>>>,
    pub args: Option<Seq<Seq<char>>>,
    pub env: Option<Seq<EnvVarView>>,
    pub ports: Option<Seq<ContainerPortView>>,
    pub volume_mounts: Option<Seq<VolumeMountView>>,
    pub resources: Option<ResourceRequirementsView>,
    pub readiness_probe: Option<ProbeView>,
    pub startup_probe: Option<ProbeView>,
    pub liveness_probe: Option<ProbeView>,
}

impl DeepView for Container {
    type V = ContainerView;

    open spec fn deep_view(&self) -> ContainerView {
        ContainerView {
            name: self.name@,
            image: self.image.deep_view(),
            command: self.command.deep_view(),
            args: self.args.deep_view(),
            env: self.env.deep_view(),
            ports: self.ports.deep_view(),
            volume_mounts: self.volume_mounts.deep_view(),
            resources: self.resources.deep_view(),
            readiness_probe: self.readiness_probe.deep_view(),
            startup_probe: self.startup_probe.deep_view(),
            liveness_probe: self.liveness_probe.deep_view(),
        }
    }
}

/// A volume filled from a Secret.
#[derive(Clone, Debug)]
pub struct SecretVolumeSource {
    /// Name of the Secret.
    pub secret_name: Option<String>,
}

/// What [`SecretVolumeSource`] holds.
#[verifier::ext_equal]
pub struct SecretVolumeSourceView {
    pub secret_name: Option<Seq<char>>,
}

impl DeepView for SecretVolumeSource {
    type V = SecretVolumeSourceView;

    open spec fn deep_view(&self) -> SecretVolumeSourceView {
        SecretVolumeSourceView { secret_name: self.secret_name.deep_view() }
    }
}

/// A volume filled from a ConfigMap.
#[derive(Clone, Debug)]
pub struct ConfigMapVolumeSource {
    /// Name of the ConfigMap.
    pub name: String,
}

/// What [`ConfigMapVolumeSource`] holds.
#[verifier::ext_equal]
pub struct ConfigMapVolumeSourceView {
    pub name: Seq<char>,
}

impl DeepView for ConfigMapVolumeSource {
    type V = ConfigMapVolumeSourceView;

    open spec fn deep_view(&self) -> ConfigMapVolumeSourceView {
        ConfigMapVolumeSourceView { name: self.name@ }
    }
}

/// A volume of a pod.
#[derive(Clone, Debug)]
pub struct Volume {
    /// Volume name.
    pub name: String,
    /// Filled from a Secret.
    pub secret: Option<SecretVolumeSource>,
    /// Filled from a ConfigMap.
    pub config_map: Option<ConfigMapVolumeSource>,
}

/// What [`Volume`] holds.
#[verifier::ext_equal]
pub struct VolumeView {
    pub name: Seq<char>,
    pub secret: Option<SecretVolumeSourceView>,
    pub config_map: Option<ConfigMapVolumeSourceView>,
}

impl DeepView for Volume {
    type V = VolumeView;

    open spec fn deep_view(&self) -> VolumeView {
        VolumeView {
            name: self.name@,
            secret: self.secret.deep_view(),
            config_map: self.config_map.deep_view(),
        }
    }
}

/// The desired state of a pod.
#[derive(Clone, Debug, Default)]
pub struct PodSpec {
    /// Containers that run together.
    pub containers: Vec<Container>,
    /// Containers that run to their end first, one after the other.
    pub init_containers: Option<Vec<Container>>,
    /// Container runtime.
    pub runtime_class_name: Option<String>,
    /// Identity of the pod.
    pub service_account_name: Option<String>,
    /// Whether the pod gets an API token.
    pub automount_service_account_token: Option<bool>,
    /// Volumes that containers can mount.
    pub volumes: Option<Vec<Volume>>,
}

/// What [`PodSpec`] holds.
#[verifier::ext_equal]
pub struct PodSpecView {
    pub containers: Seq<ContainerView>,
    pub init_containers: Option<Seq<ContainerView>>,
    pub runtime_class_name: Option<Seq<char>>,
    pub service_account_name: Option<Seq<char>>,
    pub automount_service_account_token: Option<bool>,
    pub volumes: Option<Seq<VolumeView>>,
}

impl DeepView for PodSpec {
    type V = PodSpecView;

    open spec fn deep_view(&self) -> PodSpecView {
        PodSpecView {
            containers: self.containers.deep_view(),
            init_containers: self.init_containers.deep_view(),
            runtime_class_name: self.runtime_class_name.deep_view(),
            service_account_name: self.service_account_name.deep_view(),
            automount_service_account_token: self.automount_service_account_token.deep_view(),
            volumes: self.volumes.deep_view(),
        }
    }
}

/// The pod that a controller creates.
#[derive(Clone, Debug, Default)]
pub struct PodTemplateSpec {
    /// Metadata of the pod.
    pub metadata: Option<ObjectMeta>,
    /// Desired state of the pod.
    pub spec: Option<PodSpec>,
}

/// What [`PodTemplateSpec`] holds.
#[verifier::ext_equal]
pub struct PodTemplateSpecView {
    pub metadata: Option<ObjectMetaView>,
    pub spec: Option<PodSpecView>,
}

impl DeepView for PodTemplateSpec {
    type V = PodTemplateSpecView;

    open spec fn deep_view(&self) -> PodTemplateSpecView {
        PodTemplateSpecView { metadata: self.metadata.deep_view(), spec: self.spec.deep_view() }
    }
}

/// How much a volume claim asks for.
#[derive(Clone, Debug)]
pub struct VolumeResourceRequirements {
    /// Requested quantities.
    pub requests: Option<StringMap>,
}

/// What [`VolumeResourceRequirements`] holds.
#[verifier::ext_equal]
pub struct VolumeResourceRequirementsView {
    pub requests: Option<Map<Seq<char>, Seq<char>>>,
}

impl DeepView for VolumeResourceRequirements {
    type V = VolumeResourceRequirementsView;

    open spec fn deep_view(&self) -> VolumeResourceRequirementsView {
        VolumeResourceRequirementsView { requests: self.requests.deep_view() }
    }
}

/// The desired state of a volume claim.
#[derive(Clone, Debug)]
pub struct PersistentVolumeClaimSpec {
    /// How the volume can be mounted.
    pub access_modes: Option<Vec<String>>,
    /// How much it asks for.
    pub resources: Option<VolumeResourceRequirements>,
}

/// What [`PersistentVolumeClaimSpec`] holds.
#[verifier::ext_equal]
pub struct PersistentVolumeClaimSpecView {
    pub access_modes: Option<Seq<Seq<char>>>,
    pub resources: Option<VolumeResourceRequirementsView>,
}

impl DeepView for PersistentVolumeClaimSpec {
    type V = PersistentVolumeClaimSpecView;

    open spec fn deep_view(&self) -> PersistentVolumeClaimSpecView {
        PersistentVolumeClaimSpecView {
            access_modes: self.access_modes.deep_view(),
            resources: self.resources.deep_view(),
        }
    }
}

/// The identity of a pod.
#[derive(Clone, Debug)]
pub struct ServiceAccount {
    /// Metadata.
    pub metadata: ObjectMeta,
    /// Whether its pods get an API token.
    pub automount_service_account_token: Option<bool>,
}

/// What [`ServiceAccount`] holds.
#[verifier::ext_equal]
pub struct ServiceAccountView {
    pub metadata: ObjectMetaView,
    pub automount_service_account_token: Option<bool>,
}

impl DeepView for ServiceAccount {
    type V = ServiceAccountView;

    open spec fn deep_view(&self) -> ServiceAccountView {
        ServiceAccountView {
            metadata: self.metadata.deep_view(),
            automount_service_account_token: self.automount_service_account_token.deep_view(),
        }
    }
}

/// A port, or a range of ports, that a network rule admits.
#[derive(Clone, Debug)]
pub struct NetworkPolicyPort {
    /// `TCP` or `UDP`.
    pub protocol: Option<String>,
    /// The port, or the first of the range.
    pub port: Option<i32>,
    /// The last port of the range.
    pub end_port: Option<i32>,
}

/// What [`NetworkPolicyPort`] holds.
#[verifier::ext_equal]
pub struct NetworkPolicyPortView {
    pub protocol: Option<Seq<char>>,
    pub port: Option<i32>,
    pub end_port: Option<i32>,
}

impl DeepView for NetworkPolicyPort {
    type V = NetworkPolicyPortView;

    open spec fn deep_view(&self) -> NetworkPolicyPortView {
        NetworkPolicyPortView {
            protocol: self.protocol.deep_view(),
            port: self.port.deep_view(),
            end_port: self.end_port.deep_view(),
        }
    }
}

/// A block of IP addresses.
#[derive(Clone, Debug)]
pub struct IPBlock {
    /// The block in CIDR notation.
    pub cidr: String,
}

/// What [`IPBlock`] holds.
#[verifier::ext_equal]
pub struct IPBlockView {
    pub cidr: Seq<char>,
}

impl DeepView for IPBlock {
    type V = IPBlockView;

    open spec fn deep_view(&self) -> IPBlockView {
        IPBlockView { cidr: self.cidr@ }
    }
}

/// Who a network rule admits.
#[derive(Clone, Debug)]
pub struct NetworkPolicyPeer {
    /// Pods, of the selected namespaces or else of the policy's own.
    pub pod_selector: Option<LabelSelector>,
    /// Namespaces.
    pub namespace_selector: Option<LabelSelector>,
    /// Addresses.
    pub ip_block: Option<IPBlock>,
}

/// What [`NetworkPolicyPeer`] holds.
#[verifier::ext_equal]
pub struct NetworkPolicyPeerView {
    pub pod_selector: Option<LabelSelectorView>,
    pub namespace_selector: Option<LabelSelectorView>,
    pub ip_block: Option<IPBlockView>,
}

impl DeepView for NetworkPolicyPeer {
    type V = NetworkPolicyPeerView;

    open spec fn deep_view(&self) -> NetworkPolicyPeerView {
        NetworkPolicyPeerView {
            pod_selector: self.pod_selector.deep_view(),
            namespace_selector: self.namespace_selector.deep_view(),
            ip_block: self.ip_block.deep_view(),
        }
    }
}

/// Incoming traffic that a policy admits.
#[derive(Clone, Debug)]
pub struct NetworkPolicyIngressRule {
    /// On these ports, or on every port.
    pub ports: Option<Vec<NetworkPolicyPort>>,
    /// From these peers, or from everywhere.
    pub from: Option<Vec<NetworkPolicyPeer>>,
}

/// What [`NetworkPolicyIngressRule`] holds.
#[verifier::ext_equal]
pub struct NetworkPolicyIngressRuleView {
    pub ports: Option<Seq<NetworkPolicyPortView>>,
    pub from: Option<Seq<NetworkPolicyPeerView>>,
}

impl DeepView for NetworkPolicyIngressRule {
    type V = NetworkPolicyIngressRuleView;

    open spec fn deep_view(&self) -> NetworkPolicyIngressRuleView {
        NetworkPolicyIngressRuleView { ports: self.ports.deep_view(), from: self.from.deep_view() }
    }
}

/// Outgoing traffic that a policy admits.
#[derive(Clone, Debug)]
pub struct NetworkPolicyEgressRule {
    /// To these ports, or to every port.
    pub ports: Option<Vec<NetworkPolicyPort>>,
    /// To these peers, or to everywhere.
    pub to: Option<Vec<NetworkPolicyPeer>>,
}

/// What [`NetworkPolicyEgressRule`] holds.
#[verifier::ext_equal]
pub struct NetworkPolicyEgressRuleView {
    pub ports: Option<Seq<NetworkPolicyPortView>>,
    pub to: Option<Seq<NetworkPolicyPeerView>>,
}

impl DeepView for NetworkPolicyEgressRule {
    type V = NetworkPolicyEgressRuleView;

    open spec fn deep_view(&self) -> NetworkPolicyEgressRuleView {
        NetworkPolicyEgressRuleView { ports: self.ports.deep_view(), to: self.to.deep_view() }
    }
}

/// The desired state of a network policy.
#[derive(Clone, Debug)]
pub struct NetworkPolicySpec {
    /// Pods whose traffic it governs.
    pub pod_selector: Option<LabelSelector>,
    /// Directions in which only admitted traffic passes.
    pub policy_types: Option<Vec<String>>,
    /// Admitted incoming traffic.
    pub ingress: Option<Vec<NetworkPolicyIngressRule>>,
    /// Admitted outgoing traffic.
    pub egress: Option<Vec<NetworkPolicyEgressRule>>,
}

/// What [`NetworkPolicySpec`] holds.
#[verifier::ext_equal]
pub struct NetworkPolicySpecView {
    pub pod_selector: Option<LabelSelectorView>,
    pub policy_types: Option<Seq<Seq<char>>>,
    pub ingress: Option<Seq<NetworkPolicyIngressRuleView>>,
    pub egress: Option<Seq<NetworkPolicyEgressRuleView>>,
}

impl DeepView for NetworkPolicySpec {
    type V = NetworkPolicySpecView;

    open spec fn deep_view(&self) -> NetworkPolicySpecView {
        NetworkPolicySpecView {
            pod_selector: self.pod_selector.deep_view(),
            policy_types: self.policy_types.deep_view(),
            ingress: self.ingress.deep_view(),
            egress: self.egress.deep_view(),
        }
    }
}

/// Rules for the traffic of a set of pods.
#[derive(Clone, Debug)]
pub struct NetworkPolicy {
    /// Metadata.
    pub metadata: ObjectMeta,
    /// Desired state.
    pub spec: Option<NetworkPolicySpec>,
}

/// What [`NetworkPolicy`] holds.
#[verifier::ext_equal]
pub struct NetworkPolicyView {
    pub metadata: ObjectMetaView,
    pub spec: Option<NetworkPolicySpecView>,
}

impl DeepView for NetworkPolicy {
    type V = NetworkPolicyView;

    open spec fn deep_view(&self) -> NetworkPolicyView {
        NetworkPolicyView { metadata: self.metadata.deep_view(), spec: self.spec.deep_view() }
    }
}

/// A Secret, as far as the operator looks at one: the keys it has, never their values.
#[derive(Clone, Debug, Default)]
pub struct Secret {
    /// Keys under `data`.
    pub data: Option<Vec<String>>,
    /// Keys under `stringData`.
    pub string_data: Option<Vec<String>>,
}

/// What [`Secret`] holds.
#[verifier::ext_equal]
pub struct SecretView {
    pub data: Option<Seq<Seq<char>>>,
    pub string_data: Option<Seq<Seq<char>>>,
}

impl DeepView for Secret {
    type V = SecretView;

    open spec fn deep_view(&self) -> SecretView {
        SecretView { data: self.data.deep_view(), string_data: self.string_data.deep_view() }
    }
}

} // verus!
