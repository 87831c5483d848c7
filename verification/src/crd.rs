//! The `CalibanTask` custom resource (v1alpha1).

use vstd::prelude::*;

use crate::objects::{ObjectMeta, ObjectMetaView};
use crate::workspace::{CredentialsRef, CredentialsRefView, ResolvedWorkspace, ResolvedWorkspaceView};

verus! {

/// How the agents of a task handle a permission prompt.
#[derive(Clone, Copy, Debug, PartialEq, Eq, Structural)]
pub enum PermissionPosture {
    /// A permission prompt goes to a human, who answers it.
    Supervised,
    /// The session runs under an authorized bypass profile.
    Unattended,
}

impl DeepView for PermissionPosture {
    type V = PermissionPosture;

    open spec fn deep_view(&self) -> PermissionPosture {
        *self
    }
}

impl Default for PermissionPosture {
    fn default() -> (r: PermissionPosture)
        ensures
            r == PermissionPosture::Supervised,
    {
        PermissionPosture::Supervised
    }
}

/// Lifecycle phase of a `CalibanTask`.
#[derive(Clone, Copy, Debug, PartialEq, Eq, Structural)]
pub enum Phase {
    /// Accepted, not yet provisioning.
    Pending,
    /// Sandbox and other objects being created.
    Provisioning,
    /// caliband is up and attachable.
    Running,
    /// Draining or checkpointing before teardown.
    Draining,
    /// Finished successfully.
    Completed,
    /// Finished with an error.
    Failed,
}

impl DeepView for Phase {
    type V = Phase;

    open spec fn deep_view(&self) -> Phase {
        *self
    }
}

impl Default for Phase {
    fn default() -> (r: Phase)
        ensures
            r == Phase::Pending,
    {
        Phase::Pending
    }
}

/// A by-name reference to a `Workspace` in the same namespace.
#[derive(Clone, Debug)]
pub struct WorkspaceRef {
    /// Workspace object name.
    pub name: String,
}

/// What [`WorkspaceRef`] holds.
#[verifier::ext_equal]
pub struct WorkspaceRefView {
    pub name: Seq<char>,
}

impl DeepView for WorkspaceRef {
    type V = WorkspaceRefView;

    open spec fn deep_view(&self) -> WorkspaceRefView {
        WorkspaceRefView { name: self.name@ }
    }
}

/// The task to run in the workspace.
#[derive(Clone, Debug)]
pub struct TaskSpec {
    /// Initial prompt.
    pub prompt: String,
    /// Agent type (e.g. `general-purpose`).
    pub agent_type: Option<String>,
    /// Whether the agent awaits input at each end of a run instead of finishing. The operator only
    /// carries this through.
    pub interactive: Option<bool>,
    /// How the task's agents handle a permission prompt. Unset means supervised; unattended is
    /// only admitted when the Workspace's agent policy allows it.
    pub permission_posture: Option<PermissionPosture>,
}

/// What [`TaskSpec`] holds.
#[verifier::ext_equal]
pub struct TaskSpecView {
    pub prompt: Seq<char>,
    pub agent_type: Option<Seq<char>>,
    pub interactive: Option<bool>,
    pub permission_posture: Option<PermissionPosture>,
}

impl DeepView for TaskSpec {
    type V = TaskSpecView;

    open spec fn deep_view(&self) -> TaskSpecView {
        TaskSpecView {
            prompt: self.prompt@,
            agent_type: self.agent_type.deep_view(),
            interactive: self.interactive.deep_view(),
            permission_posture: self.permission_posture.deep_view(),
        }
    }
}

/// Model-router configuration.
#[derive(Clone, Debug)]
pub struct ModelSpec {
    /// Name of a ConfigMap (same namespace) holding the model router configuration under the key
    /// `caliban.toml`.
    pub router_config_ref: Option<String>,
}

/// What [`ModelSpec`] holds.
#[verifier::ext_equal]
pub struct ModelSpecView {
    pub router_config_ref: Option<Seq<char>>,
}

impl DeepView for ModelSpec {
    type V = ModelSpecView;

    open spec fn deep_view(&self) -> ModelSpecView {
        ModelSpecView { router_config_ref: self.router_config_ref.deep_view() }
    }
}

/// Persistence configuration.
#[derive(Clone, Debug)]
pub struct StateSpec {
    /// gonzalod URL the task's agents use for shared state. Setting it selects remote storage
    /// unless `mode` says `local`.
    pub gonzalo_endpoint: Option<String>,
    /// `remote` (shared gonzalod) or `local` (in-pod filesystem). Defaults to `remote` when
    /// `gonzalo_endpoint` is set.
    pub mode: Option<String>,
    /// Secret holding the gonzalod bearer token. Requires remote storage.
    pub token_ref: Option<CredentialsRef>,
}

/// What [`StateSpec`] holds.
#[verifier::ext_equal]
pub struct StateSpecView {
    pub gonzalo_endpoint: Option<Seq<char>>,
    pub mode: Option<Seq<char>>,
    pub token_ref: Option<CredentialsRefView>,
}

impl DeepView for StateSpec {
    type V = StateSpecView;

    open spec fn deep_view(&self) -> StateSpecView {
        StateSpecView {
            gonzalo_endpoint: self.gonzalo_endpoint.deep_view(),
            mode: self.mode.deep_view(),
            token_ref: self.token_ref.deep_view(),
        }
    }
}

/// Sandbox isolation configuration.
#[derive(Debug)]
pub struct IsolationSpec {
    /// RuntimeClass (e.g. `gvisor`, `kata`).
    pub runtime_class: Option<String>,
    /// Worktree isolation strategy (e.g. `per-source`).
    pub worktrees: Option<String>,
}

/// What [`IsolationSpec`] holds.
#[verifier::ext_equal]
pub struct IsolationSpecView {
    pub runtime_class: Option<Seq<char>>,
    pub worktrees: Option<Seq<char>>,
}

impl DeepView for IsolationSpec {
    type V = IsolationSpecView;

    open spec fn deep_view(&self) -> IsolationSpecView {
        IsolationSpecView {
            runtime_class: self.runtime_class.deep_view(),
            worktrees: self.worktrees.deep_view(),
        }
    }
}

impl Clone for IsolationSpec {
    fn clone(&self) -> (r: IsolationSpec)
        ensures
            r.deep_view() == self.deep_view(),
    {
        IsolationSpec {
            runtime_class: self.runtime_class.clone(),
            worktrees: self.worktrees.clone(),
        }
    }
}

/// Resource class selecting a sandbox template.
#[derive(Clone, Debug)]
pub struct ResourcesSpec {
    /// Named resource class (e.g. `standard`).
    pub class: Option<String>,
}

/// What [`ResourcesSpec`] holds.
#[verifier::ext_equal]
pub struct ResourcesSpecView {
    pub class: Option<Seq<char>>,
}

impl DeepView for ResourcesSpec {
    type V = ResourcesSpecView;

    open spec fn deep_view(&self) -> ResourcesSpecView {
        ResourcesSpecView { class: self.class.deep_view() }
    }
}

/// Idle and drain lifecycle policy.
#[derive(Clone, Debug)]
pub struct LifecycleSpec {
    /// Idle timeout before pause (e.g. `30m`).
    pub idle_timeout: Option<String>,
    /// On delete: `checkpoint` or `delete`.
    pub on_delete: Option<String>,
}

/// What [`LifecycleSpec`] holds.
#[verifier::ext_equal]
pub struct LifecycleSpecView {
    pub idle_timeout: Option<Seq<char>>,
    pub on_delete: Option<Seq<char>>,
}

impl DeepView for LifecycleSpec {
    type V = LifecycleSpecView;

    open spec fn deep_view(&self) -> LifecycleSpecView {
        LifecycleSpecView {
            idle_timeout: self.idle_timeout.deep_view(),
            on_delete: self.on_delete.deep_view(),
        }
    }
}

/// Desired state of a caliban task: a workspace and the task to run in it.
#[derive(Clone, Debug)]
pub struct CalibanTaskSpec {
    /// The namespace-local `Workspace` the task runs against.
    pub workspace_ref: WorkspaceRef,
    /// Which of the workspace's providers to bind; defaults to the workspace's default provider,
    /// or its sole provider.
    pub provider_ref: Option<String>,
    /// The task itself.
    pub task: TaskSpec,
    /// Model-router configuration.
    pub model: Option<ModelSpec>,
    /// Persistence configuration.
    pub state: Option<StateSpec>,
    /// Sandbox isolation configuration.
    pub isolation: Option<IsolationSpec>,
    /// Resource class.
    pub resources: Option<ResourcesSpec>,
    /// Idle and drain lifecycle policy.
    pub lifecycle: Option<LifecycleSpec>,
    /// Per-run tool override (allow-list) for the task's agents.
    pub tools: Option<Vec<String>>,
}

/// What [`CalibanTaskSpec`] holds.
#[verifier::ext_equal]
pub struct CalibanTaskSpecView {
    pub workspace_ref: WorkspaceRefView,
    pub provider_ref: Option<Seq<char>>,
    pub task: TaskSpecView,
    pub model: Option<ModelSpecView>,
    pub state: Option<StateSpecView>,
    pub isolation: Option<IsolationSpecView>,
    pub resources: Option<ResourcesSpecView>,
    pub lifecycle: Option<LifecycleSpecView>,
    pub tools: Option<Seq<Seq<char>>>,
}

impl DeepView for CalibanTaskSpec {
    type V = CalibanTaskSpecView;

    open spec fn deep_view(&self) -> CalibanTaskSpecView {
        CalibanTaskSpecView {
            workspace_ref: self.workspace_ref.deep_view(),
            provider_ref: self.provider_ref.deep_view(),
            task: self.task.deep_view(),
            model: self.model.deep_view(),
            state: self.state.deep_view(),
            isolation: self.isolation.deep_view(),
            resources: self.resources.deep_view(),
            lifecycle: self.lifecycle.deep_view(),
            tools: self.tools.deep_view(),
        }
    }
}

/// A by-name reference to another object in the same namespace.
#[derive(Debug)]
pub struct NamedRef {
    /// Object name.
    pub name: String,
}

/// What [`NamedRef`] holds.
#[verifier::ext_equal]
pub struct NamedRefView {
    pub name: Seq<char>,
}

impl DeepView for NamedRef {
    type V = NamedRefView;

    open spec fn deep_view(&self) -> NamedRefView {
        NamedRefView { name: self.name@ }
    }
}

impl Clone for NamedRef {
    fn clone(&self) -> (r: NamedRef)
        ensures
            r.deep_view() == self.deep_view(),
    {
        NamedRef { name: self.name.clone() }
    }
}

/// A minimal Kubernetes-style condition.
#[derive(Debug, PartialEq, Eq)]
pub struct Condition {
    /// Condition type (e.g. `Ready`).
    pub type_: String,
    /// `True`, `False` or `Unknown`.
    pub status: String,
    /// Machine-readable reason.
    pub reason: Option<String>,
    /// Human-readable message.
    pub message: Option<String>,
}

/// What [`Condition`] holds.
#[verifier::ext_equal]
pub struct ConditionView {
    pub type_: Seq<char>,
    pub status: Seq<char>,
    pub reason: Option<Seq<char>>,
    pub message: Option<Seq<char>>,
}

impl DeepView for Condition {
    type V = ConditionView;

    open spec fn deep_view(&self) -> ConditionView {
        ConditionView {
            type_: self.type_@,
            status: self.status@,
            reason: self.reason.deep_view(),
            message: self.message.deep_view(),
        }
    }
}

impl Clone for Condition {
    fn clone(&self) -> (r: Condition)
        ensures
            r.deep_view() == self.deep_view(),
    {
        Condition {
            type_: self.type_.clone(),
            status: self.status.clone(),
            reason: self.reason.clone(),
            message: self.message.clone(),
        }
    }
}

/// Observed state of a `CalibanTask`.
#[derive(Debug)]
pub struct CalibanTaskStatus {
    /// Lifecycle phase.
    pub phase: Phase,
    /// caliband session endpoint (host:port), once the Sandbox is ready.
    pub caliband_endpoint: Option<String>,
    /// The Sandbox backing the task.
    pub sandbox_ref: Option<NamedRef>,
    /// Latest checkpoint reference.
    pub checkpoint_ref: Option<String>,
    /// Standard Kubernetes conditions, one per type. Each field manager owns its own entries.
    pub conditions: Vec<Condition>,
    /// Resolved workspace configuration, pinned at admission. Set once: later `Workspace` edits
    /// do not re-pin a running task.
    pub resolved_workspace: Option<ResolvedWorkspace>,
    /// The permission posture the task was admitted with.
    pub permission_posture: Option<PermissionPosture>,
}

/// What [`CalibanTaskStatus`] holds.
#[verifier::ext_equal]
pub struct CalibanTaskStatusView {
    pub phase: Phase,
    pub caliband_endpoint: Option<Seq<char>>,
    pub sandbox_ref: Option<NamedRefView>,
    pub checkpoint_ref: Option<Seq<char>>,
    pub conditions: Seq<ConditionView>,
    pub resolved_workspace: Option<ResolvedWorkspaceView>,
    pub permission_posture: Option<PermissionPosture>,
}

impl DeepView for CalibanTaskStatus {
    type V = CalibanTaskStatusView;

    open spec fn deep_view(&self) -> CalibanTaskStatusView {
        CalibanTaskStatusView {
            phase: self.phase,
            caliband_endpoint: self.caliband_endpoint.deep_view(),
            sandbox_ref: self.sandbox_ref.deep_view(),
            checkpoint_ref: self.checkpoint_ref.deep_view(),
            conditions: self.conditions.deep_view(),
            resolved_workspace: self.resolved_workspace.deep_view(),
            permission_posture: self.permission_posture.deep_view(),
        }
    }
}

impl Clone for CalibanTaskStatus {
    fn clone(&self) -> (r: CalibanTaskStatus)
        ensures
            r.deep_view() == self.deep_view(),
    {
        let r = CalibanTaskStatus {
            phase: self.phase,
            caliband_endpoint: self.caliband_endpoint.clone(),
            sandbox_ref: self.sandbox_ref.clone(),
            checkpoint_ref: self.checkpoint_ref.clone(),
            conditions: self.conditions.clone(),
            resolved_workspace: self.resolved_workspace.clone(),
            permission_posture: self.permission_posture,
        };
        assert(r.conditions.deep_view() =~= self.conditions.deep_view());
        r
    }
}

/// A caliban task.
#[derive(Clone, Debug)]
pub struct CalibanTask {
    /// Metadata.
    pub metadata: ObjectMeta,
    /// Desired state.
    pub spec: CalibanTaskSpec,
    /// Observed state.
    pub status: Option<CalibanTaskStatus>,
}

/// What [`CalibanTask`] holds.
#[verifier::ext_equal]
pub struct CalibanTaskView {
    pub metadata: ObjectMetaView,
    pub spec: CalibanTaskSpecView,
    pub status: Option<CalibanTaskStatusView>,
}

impl DeepView for CalibanTask {
    type V = CalibanTaskView;

    open spec fn deep_view(&self) -> CalibanTaskView {
        CalibanTaskView {
            metadata: self.metadata.deep_view(),
            spec: self.spec.deep_view(),
            status: self.status.deep_view(),
        }
    }
}

/// API group of the operator's custom resources.
pub const GROUP: &'static str = "caliban.caliban-ai.dev";

/// API version of the operator's custom resources.
pub const VERSION: &'static str = "v1alpha1";

/// Group and version of the operator's custom resources, as objects name them.
pub const API_VERSION: &'static str = "caliban.caliban-ai.dev/v1alpha1";

/// Kind of a `CalibanTask`.
pub const TASK_KIND: &'static str = "CalibanTask";

/// How a custom resource is registered with the API server.
#[derive(Clone, Debug)]
pub struct ResourceDefinition {
    /// API group.
    pub group: String,
    /// API version.
    pub version: String,
    /// Kind.
    pub kind: String,
    /// `Namespaced` or `Cluster`.
    pub scope: String,
    /// Whether the status is written separately from the desired state.
    pub status_subresource: bool,
}

/// The definition of the custom resource `kind`: namespaced, with a status of its own.
pub fn definition_of(kind: &str) -> (r: ResourceDefinition)
    ensures
        r.group@ == GROUP@,
        r.version@ == VERSION@,
        r.kind@ == kind@,
        r.scope@ == "Namespaced"@,
        r.status_subresource,
{
    ResourceDefinition {
        group: GROUP.to_string(),
        version: VERSION.to_string(),
        kind: kind.to_string(),
        scope: "Namespaced".to_string(),
        status_subresource: true,
    }
}

impl TaskSpecView {
    /// The posture that the task asks for.
    pub open spec fn posture(self) -> PermissionPosture {
        match self.permission_posture {
            Some(p) => p,
            None => PermissionPosture::Supervised,
        }
    }
}

impl TaskSpec {
    /// The posture the task asks for: supervised when unset, so that nothing runs unattended
    /// without being asked to.
    pub fn posture(&self) -> (r: PermissionPosture)
        ensures
            r == self.deep_view().posture(),
    {
        match self.permission_posture {
            Some(p) => p,
            None => PermissionPosture::Supervised,
        }
    }
}

impl CalibanTaskStatusView {
    /// The status that nothing has been observed for yet.
    pub open spec fn initial() -> CalibanTaskStatusView {
        CalibanTaskStatusView {
            phase: Phase::Pending,
            caliband_endpoint: None,
            sandbox_ref: None,
            checkpoint_ref: None,
            conditions: Seq::empty(),
            resolved_workspace: None,
            permission_posture: None,
        }
    }
}

impl Default for CalibanTaskStatus {
    fn default() -> (r: CalibanTaskStatus)
        ensures
            r.deep_view() == CalibanTaskStatusView::initial(),
    {
        let r = CalibanTaskStatus {
            phase: Phase::Pending,
            caliband_endpoint: None,
            sandbox_ref: None,
            checkpoint_ref: None,
            conditions: Vec::new(),
            resolved_workspace: None,
            permission_posture: None,
        };
        assert(r.conditions.deep_view() =~= Seq::empty());
        r
    }
}

impl ObjectMetaView {
    /// The object's name; failing that, the prefix it is to be generated from.
    pub open spec fn name_any(self) -> Seq<char> {
        match self.name {
            Some(n) => n,
            None => match self.generate_name {
                Some(g) => g,
                None => Seq::empty(),
            },
        }
    }

    /// The object's namespace, or the empty string.
    pub open spec fn namespace_or_empty(self) -> Seq<char> {
        match self.namespace {
            Some(n) => n,
            None => Seq::empty(),
        }
    }
}

impl ObjectMeta {
    /// The object's name; failing that, the prefix it is to be generated from.
    pub fn name_any(&self) -> (r: String)
        ensures
            r@ == self.deep_view().name_any(),
    {
        match &self.name {
            Some(n) => n.clone(),
            None => match &self.generate_name {
                Some(g) => g.clone(),
                None => String::new(),
            },
        }
    }

    /// The object's namespace, or the empty string.
    pub fn namespace_or_empty(&self) -> (r: String)
        ensures
            r@ == self.deep_view().namespace_or_empty(),
    {
        match &self.namespace {
            Some(n) => n.clone(),
            None => String::new(),
        }
    }

    /// Metadata with a name and nothing else.
    pub fn named(name: &str) -> (r: ObjectMeta)
        ensures
            r.deep_view() == (ObjectMetaView {
                name: Some(name@),
                generate_name: None,
                namespace: None,
                uid: None,
                generation: None,
                labels: None,
                owner_references: None,
            }),
    {
        ObjectMeta {
            name: Some(name.to_string()),
            generate_name: None,
            namespace: None,
            uid: None,
            generation: None,
            labels: None,
            owner_references: None,
        }
    }
}

impl CalibanTask {
    /// A task of the given name that nothing has been observed for yet.
    pub fn new(name: &str, spec: CalibanTaskSpec) -> (r: CalibanTask)
        ensures
            r.deep_view().metadata.name == Some(name@),
            r.metadata.generate_name is None,
            r.metadata.namespace is None,
            r.metadata.uid is None,
            r.metadata.generation is None,
            r.metadata.labels is None,
            r.metadata.owner_references is None,
            r.spec == spec,
            r.status is None,
    {
        CalibanTask { metadata: ObjectMeta::named(name), spec, status: None }
    }

    /// How the resource is registered.
    pub fn definition() -> (r: ResourceDefinition)
        ensures
            r.group@ == GROUP@,
            r.version@ == VERSION@,
            r.kind@ == TASK_KIND@,
            r.scope@ == "Namespaced"@,
            r.status_subresource,
    {
        definition_of(TASK_KIND)
    }
}

// ---------------------------------------------------------------------------------------------
// Laws
// ---------------------------------------------------------------------------------------------

/// An object goes by its own name if it has one, and else by the prefix that one is made from.
pub proof fn law_object_names(m: ObjectMetaView)
    ensures
        m.name matches Some(n) ==> m.name_any() == n,
        m.name is None ==> (m.generate_name matches Some(g) ==> m.name_any() == g),
        m.name is None && m.generate_name is None ==> m.name_any().len() == 0,
        m.namespace matches Some(n) ==> m.namespace_or_empty() == n,
        m.namespace is None ==> m.namespace_or_empty().len() == 0,
{
}

/// A task runs unattended only if it asks to.
pub proof fn law_supervised_unless_asked(t: TaskSpecView)
    ensures
        t.posture() == PermissionPosture::Unattended <==> t.permission_posture == Some(
            PermissionPosture::Unattended,
        ),
{
}

/// A status that nothing has been observed for is pending and holds nothing.
pub proof fn law_initial_status()
    ensures
        ({
            let s = CalibanTaskStatusView::initial();
            &&& s.phase == Phase::Pending
            &&& s.caliband_endpoint is None
            &&& s.sandbox_ref is None
            &&& s.checkpoint_ref is None
            &&& s.conditions.len() == 0
            &&& s.resolved_workspace is None
            &&& s.permission_posture is None
        }),
{
}

} // verus!
