//! The `Workspace` custom resource (v1alpha1): durable, shared configuration (sources, named
//! providers, environment, isolation) that `CalibanTask`s reference by name.

use vstd::prelude::*;

use crate::config;
use crate::crd::{
    definition_of, Condition, ConditionView, IsolationSpec, IsolationSpecView, ResourceDefinition,
    GROUP, VERSION,
};
use crate::ip;
use crate::objects::{ObjectMeta, ObjectMetaView};
use crate::path;
use crate::text;

verus! {

/// Lifecycle phase of a `Workspace`.
#[derive(Clone, Copy, Debug, PartialEq, Eq, Structural)]
pub enum WorkspacePhase {
    /// Created, not yet reconciled.
    Pending,
    /// Valid: all providers and credential Secrets resolve.
    Ready,
    /// Invalid: see the message.
    Failed,
}

impl DeepView for WorkspacePhase {
    type V = WorkspacePhase;

    open spec fn deep_view(&self) -> WorkspacePhase {
        *self
    }
}

impl Default for WorkspacePhase {
    fn default() -> (r: WorkspacePhase)
        ensures
            r == WorkspacePhase::Pending,
    {
        WorkspacePhase::Pending
    }
}

/// A single source checkout in the workspace.
#[derive(Debug)]
pub struct Source {
    /// Source identifier.
    pub name: String,
    /// Git remote to clone.
    pub repo: String,
    /// Git ref to check out.
    pub git_ref: String,
    /// Absolute checkout path in the pod: a directory strictly under the workspace root, distinct
    /// from every other source's path.
    pub path: String,
}

/// What [`Source`] holds.
#[verifier::ext_equal]
pub struct SourceView {
    pub name: Seq<char>,
    pub repo: Seq<char>,
    pub git_ref: Seq<char>,
    pub path: Seq<char>,
}

impl DeepView for Source {
    type V = SourceView;

    open spec fn deep_view(&self) -> SourceView {
        SourceView { name: self.name@, repo: self.repo@, git_ref: self.git_ref@, path: self.path@ }
    }
}

impl Clone for Source {
    fn clone(&self) -> (r: Source)
        ensures
            r.deep_view() == self.deep_view(),
    {
        Source {
            name: self.name.clone(),
            repo: self.repo.clone(),
            git_ref: self.git_ref.clone(),
            path: self.path.clone(),
        }
    }
}

/// A by-name reference to a key within an existing Secret.
#[derive(Debug)]
pub struct CredentialsRef {
    /// Name of the Secret (same namespace).
    pub secret_name: String,
    /// Key within the Secret's data.
    pub key: String,
}

/// What [`CredentialsRef`] holds.
#[verifier::ext_equal]
pub struct CredentialsRefView {
    pub secret_name: Seq<char>,
    pub key: Seq<char>,
}

impl DeepView for CredentialsRef {
    type V = CredentialsRefView;

    open spec fn deep_view(&self) -> CredentialsRefView {
        CredentialsRefView { secret_name: self.secret_name@, key: self.key@ }
    }
}

impl Clone for CredentialsRef {
    fn clone(&self) -> (r: CredentialsRef)
        ensures
            r.deep_view() == self.deep_view(),
    {
        CredentialsRef { secret_name: self.secret_name.clone(), key: self.key.clone() }
    }
}

/// A named model provider bound within a workspace.
#[derive(Clone, Debug)]
pub struct Provider {
    /// Provider identifier, unique within the workspace (e.g. `planner`).
    pub name: String,
    /// Provider kind (e.g. `anthropic`, `openai`, `google`).
    pub kind: String,
    /// Override base URL.
    pub base_url: Option<String>,
    /// Default model for this provider.
    pub model: Option<String>,
    /// An existing Secret for this provider's API key. Keyless providers omit it.
    pub credentials_ref: Option<CredentialsRef>,
}

/// What [`Provider`] holds.
#[verifier::ext_equal]
pub struct ProviderView {
    pub name: Seq<char>,
    pub kind: Seq<char>,
    pub base_url: Option<Seq<char>>,
    pub model: Option<Seq<char>>,
    pub credentials_ref: Option<CredentialsRefView>,
}

impl DeepView for Provider {
    type V = ProviderView;

    open spec fn deep_view(&self) -> ProviderView {
        ProviderView {
            name: self.name@,
            kind: self.kind@,
            base_url: self.base_url.deep_view(),
            model: self.model.deep_view(),
            credentials_ref: self.credentials_ref.deep_view(),
        }
    }
}

/// A non-secret environment entry.
#[derive(Debug)]
pub struct EnvEntry {
    /// Variable name.
    pub name: String,
    /// Variable value.
    pub value: String,
}

/// What [`EnvEntry`] holds.
#[verifier::ext_equal]
pub struct EnvEntryView {
    pub name: Seq<char>,
    pub value: Seq<char>,
}

impl DeepView for EnvEntry {
    type V = EnvEntryView;

    open spec fn deep_view(&self) -> EnvEntryView {
        EnvEntryView { name: self.name@, value: self.value@ }
    }
}

impl Clone for EnvEntry {
    fn clone(&self) -> (r: EnvEntry)
        ensures
            r.deep_view() == self.deep_view(),
    {
        EnvEntry { name: self.name.clone(), value: self.value.clone() }
    }
}

/// One allowed egress destination.
#[derive(Debug)]
pub struct EgressRule {
    /// Destination CIDR, e.g. `192.0.2.0/24` or `2001:db8::/32`.
    pub cidr: String,
    /// TCP ports allowed to that CIDR. Empty allows every port.
    pub ports: Vec<i32>,
}

/// What [`EgressRule`] holds.
#[verifier::ext_equal]
pub struct EgressRuleView {
    pub cidr: Seq<char>,
    pub ports: Seq<i32>,
}

impl DeepView for EgressRule {
    type V = EgressRuleView;

    open spec fn deep_view(&self) -> EgressRuleView {
        EgressRuleView { cidr: self.cidr@, ports: self.ports.deep_view() }
    }
}

impl Clone for EgressRule {
    fn clone(&self) -> (r: EgressRule)
        ensures
            r.deep_view() == self.deep_view(),
    {
        let r = EgressRule {
            cidr: self.cidr.clone(),
            ports: self.ports.clone(),
        };
        assert(r.ports.deep_view() =~= self.ports.deep_view());
        r
    }
}

/// Workspace-wide egress restriction for agent pods.
#[derive(Debug)]
pub struct EgressSpec {
    /// Destinations agent pods may reach besides DNS. An empty list allows DNS only.
    pub allow: Vec<EgressRule>,
}

/// What [`EgressSpec`] holds.
#[verifier::ext_equal]
pub struct EgressSpecView {
    pub allow: Seq<EgressRuleView>,
}

impl DeepView for EgressSpec {
    type V = EgressSpecView;

    open spec fn deep_view(&self) -> EgressSpecView {
        EgressSpecView { allow: self.allow.deep_view() }
    }
}

impl Clone for EgressSpec {
    fn clone(&self) -> (r: EgressSpec)
        ensures
            r.deep_view() == self.deep_view(),
    {
        let r = EgressSpec {
            allow: self.allow.clone(),
        };
        assert(r.allow.deep_view() =~= self.allow.deep_view());
        r
    }
}

/// Workspace-wide policy for the agents a task launches.
#[derive(Clone, Copy, Debug, PartialEq, Eq, Structural)]
pub struct AgentPolicy {
    /// Admit tasks whose permission posture is unattended, which run under a bypass profile with
    /// no human answering permission prompts.
    pub allow_unattended: bool,
}

impl DeepView for AgentPolicy {
    type V = AgentPolicy;

    open spec fn deep_view(&self) -> AgentPolicy {
        *self
    }
}

impl Default for AgentPolicy {
    fn default() -> (r: AgentPolicy)
        ensures
            !r.allow_unattended,
    {
        AgentPolicy { allow_unattended: false }
    }
}

/// Desired state of a workspace: sources, named providers and defaults.
#[derive(Clone, Debug)]
pub struct WorkspaceSpec {
    /// Human-friendly label.
    pub display_name: String,
    /// The workspace's git checkouts. A workspace may have none.
    pub sources: Vec<Source>,
    /// Named providers agents in this workspace can bind to.
    pub providers: Vec<Provider>,
    /// Provider name agents get when they don't request one. Implicit when exactly one provider
    /// is defined.
    pub default_provider: Option<String>,
    /// Non-secret environment injected into every agent pod.
    pub env: Vec<EnvEntry>,
    /// Default isolation for agents launched against this workspace.
    pub isolation: Option<IsolationSpec>,
    /// Egress restriction for agent pods. Unset keeps allow-all egress; set, it allows DNS plus
    /// only the listed destinations. A task cannot override it.
    pub egress: Option<EgressSpec>,
    /// What agents in this workspace may do. A task cannot override it.
    pub agent_policy: Option<AgentPolicy>,
}

/// What [`WorkspaceSpec`] holds.
#[verifier::ext_equal]
pub struct WorkspaceSpecView {
    pub display_name: Seq<char>,
    pub sources: Seq<SourceView>,
    pub providers: Seq<ProviderView>,
    pub default_provider: Option<Seq<char>>,
    pub env: Seq<EnvEntryView>,
    pub isolation: Option<IsolationSpecView>,
    pub egress: Option<EgressSpecView>,
    pub agent_policy: Option<AgentPolicy>,
}

impl DeepView for WorkspaceSpec {
    type V = WorkspaceSpecView;

    open spec fn deep_view(&self) -> WorkspaceSpecView {
        WorkspaceSpecView {
            display_name: self.display_name@,
            sources: self.sources.deep_view(),
            providers: self.providers.deep_view(),
            default_provider: self.default_provider.deep_view(),
            env: self.env.deep_view(),
            isolation: self.isolation.deep_view(),
            egress: self.egress.deep_view(),
            agent_policy: self.agent_policy.deep_view(),
        }
    }
}

/// Observed state of a `Workspace`.
#[derive(Debug)]
pub struct WorkspaceStatus {
    /// Lifecycle phase.
    pub phase: WorkspacePhase,
    /// Standard Kubernetes conditions.
    pub conditions: Vec<Condition>,
    /// The generation of the desired state that this status reflects.
    pub observed_generation: Option<i64>,
    /// Human-readable detail.
    pub message: Option<String>,
}

/// What [`WorkspaceStatus`] holds.
#[verifier::ext_equal]
pub struct WorkspaceStatusView {
    pub phase: WorkspacePhase,
    pub conditions: Seq<ConditionView>,
    pub observed_generation: Option<i64>,
    pub message: Option<Seq<char>>,
}

impl DeepView for WorkspaceStatus {
    type V = WorkspaceStatusView;

    open spec fn deep_view(&self) -> WorkspaceStatusView {
        WorkspaceStatusView {
            phase: self.phase,
            conditions: self.conditions.deep_view(),
            observed_generation: self.observed_generation.deep_view(),
            message: self.message.deep_view(),
        }
    }
}

impl Clone for WorkspaceStatus {
    fn clone(&self) -> (r: WorkspaceStatus)
        ensures
            r.deep_view() == self.deep_view(),
    {
        let r = WorkspaceStatus {
            phase: self.phase,
            conditions: self.conditions.clone(),
            observed_generation: self.observed_generation,
            message: self.message.clone(),
        };
        assert(r.conditions.deep_view() =~= self.conditions.deep_view());
        r
    }
}

/// A workspace.
#[derive(Clone, Debug)]
pub struct Workspace {
    /// Metadata.
    pub metadata: ObjectMeta,
    /// Desired state.
    pub spec: WorkspaceSpec,
    /// Observed state.
    pub status: Option<WorkspaceStatus>,
}

/// What [`Workspace`] holds.
#[verifier::ext_equal]
pub struct WorkspaceView {
    pub metadata: ObjectMetaView,
    pub spec: WorkspaceSpecView,
    pub status: Option<WorkspaceStatusView>,
}

impl DeepView for Workspace {
    type V = WorkspaceView;

    open spec fn deep_view(&self) -> WorkspaceView {
        WorkspaceView {
            metadata: self.metadata.deep_view(),
            spec: self.spec.deep_view(),
            status: self.status.deep_view(),
        }
    }
}

/// Outcome of validating a `Workspace` against known Secret existence.
#[derive(Clone, Debug)]
pub struct WorkspaceValidation {
    /// Derived phase (`Ready` or `Failed`).
    pub phase: WorkspacePhase,
    /// Human-readable failure detail, `None` when `Ready`.
    pub message: Option<String>,
}

/// What [`WorkspaceValidation`] holds.
#[verifier::ext_equal]
pub struct WorkspaceValidationView {
    pub phase: WorkspacePhase,
    pub message: Option<Seq<char>>,
}

impl DeepView for WorkspaceValidation {
    type V = WorkspaceValidationView;

    open spec fn deep_view(&self) -> WorkspaceValidationView {
        WorkspaceValidationView { phase: self.phase, message: self.message.deep_view() }
    }
}

/// A provider with its workspace context flattened in: the pinned form.
#[derive(Debug)]
pub struct ResolvedProvider {
    /// Provider name.
    pub name: String,
    /// Provider kind.
    pub kind: String,
    /// Base URL, if set.
    pub base_url: Option<String>,
    /// Model, if set.
    pub model: Option<String>,
    /// Credential Secret reference, if the provider needs one.
    pub credentials_ref: Option<CredentialsRef>,
}

/// What [`ResolvedProvider`] holds.
#[verifier::ext_equal]
pub struct ResolvedProviderView {
    pub name: Seq<char>,
    pub kind: Seq<char>,
    pub base_url: Option<Seq<char>>,
    pub model: Option<Seq<char>>,
    pub credentials_ref: Option<CredentialsRefView>,
}

impl DeepView for ResolvedProvider {
    type V = ResolvedProviderView;

    open spec fn deep_view(&self) -> ResolvedProviderView {
        ResolvedProviderView {
            name: self.name@,
            kind: self.kind@,
            base_url: self.base_url.deep_view(),
            model: self.model.deep_view(),
            credentials_ref: self.credentials_ref.deep_view(),
        }
    }
}

impl Clone for ResolvedProvider {
    fn clone(&self) -> (r: ResolvedProvider)
        ensures
            r.deep_view() == self.deep_view(),
    {
        ResolvedProvider {
            name: self.name.clone(),
            kind: self.kind.clone(),
            base_url: self.base_url.clone(),
            model: self.model.clone(),
            credentials_ref: self.credentials_ref.clone(),
        }
    }
}

/// The workspace configuration a `CalibanTask` runs against, resolved to a single provider and
/// pinned into the task's status at admission.
#[derive(Debug)]
pub struct ResolvedWorkspace {
    /// The workspace's source checkouts.
    pub sources: Vec<Source>,
    /// The single provider the task binds to.
    pub provider: ResolvedProvider,
    /// Non-secret environment from the workspace.
    pub env: Vec<EnvEntry>,
    /// Workspace default isolation.
    pub isolation: Option<IsolationSpec>,
    /// Workspace egress restriction, if any.
    pub egress: Option<EgressSpec>,
    /// Workspace agent policy, if any.
    pub agent_policy: Option<AgentPolicy>,
}

/// What [`ResolvedWorkspace`] holds.
#[verifier::ext_equal]
pub struct ResolvedWorkspaceView {
    pub sources: Seq<SourceView>,
    pub provider: ResolvedProviderView,
    pub env: Seq<EnvEntryView>,
    pub isolation: Option<IsolationSpecView>,
    pub egress: Option<EgressSpecView>,
    pub agent_policy: Option<AgentPolicy>,
}

impl DeepView for ResolvedWorkspace {
    type V = ResolvedWorkspaceView;

    open spec fn deep_view(&self) -> ResolvedWorkspaceView {
        ResolvedWorkspaceView {
            sources: self.sources.deep_view(),
            provider: self.provider.deep_view(),
            env: self.env.deep_view(),
            isolation: self.isolation.deep_view(),
            egress: self.egress.deep_view(),
            agent_policy: self.agent_policy.deep_view(),
        }
    }
}

impl Clone for ResolvedWorkspace {
    fn clone(&self) -> (r: ResolvedWorkspace)
        ensures
            r.deep_view() == self.deep_view(),
    {
        let r = ResolvedWorkspace {
            sources: self.sources.clone(),
            provider: self.provider.clone(),
            env: self.env.clone(),
            isolation: self.isolation.clone(),
            egress: self.egress.clone(),
            agent_policy: self.agent_policy,
        };
        assert(r.sources.deep_view() =~= self.sources.deep_view());
        assert(r.env.deep_view() =~= self.env.deep_view());
        r
    }
}

/// Kind of a `Workspace`.
pub const WORKSPACE_KIND: &'static str = "Workspace";

impl WorkspaceStatusView {
    /// The status that nothing has been observed for yet.
    pub open spec fn initial() -> WorkspaceStatusView {
        WorkspaceStatusView {
            phase: WorkspacePhase::Pending,
            conditions: Seq::empty(),
            observed_generation: None,
            message: None,
        }
    }
}

impl Default for WorkspaceStatus {
    fn default() -> (r: WorkspaceStatus)
        ensures
            r.deep_view() == WorkspaceStatusView::initial(),
    {
        let r = WorkspaceStatus {
            phase: WorkspacePhase::Pending,
            conditions: Vec::new(),
            observed_generation: None,
            message: None,
        };
        assert(r.conditions.deep_view() =~= Seq::empty());
        r
    }
}

impl Workspace {
    /// A workspace of the given name that nothing has been observed for yet.
    pub fn new(name: &str, spec: WorkspaceSpec) -> (r: Workspace)
        ensures
            r.deep_view().metadata.name == Some(name@),
            r.metadata.generate_name is None,
            r.metadata.namespace is None,
            r.metadata.uid is None,
            r.metadata.generation is None,
            r.metadata.labels is None,
            r.metadata.owner_references is None,
            r.spec == spec,
            r.status is None,
    {
        Workspace { metadata: ObjectMeta::named(name), spec, status: None }
    }

    /// How the resource is registered.
    pub fn definition() -> (r: ResourceDefinition)
        ensures
            r.group@ == GROUP@,
            r.version@ == VERSION@,
            r.kind@ == WORKSPACE_KIND@,
            r.scope@ == "Namespaced"@,
            r.status_subresource,
    {
        definition_of(WORKSPACE_KIND)
    }
}

// ---------------------------------------------------------------------------------------------
// Validation: sources
// ---------------------------------------------------------------------------------------------

/// Which of the first `n` sources, if any, has the same path as source `i`: the first that has.
pub open spec fn earlier(sources: Seq<SourceView>, i: int, n: int) -> Option<int>
    decreases n,
{
    if n <= 0 {
        None
    } else {
        match earlier(sources, i, n - 1) {
            Some(j) => Some(j),
            None => if path::components(sources[n - 1].path) == path::components(sources[i].path) {
                Some(n - 1)
            } else {
                None
            },
        }
    }
}

/// What is wrong with source `i`, if anything is.
pub open spec fn source_problem(sources: Seq<SourceView>, root: Seq<char>, i: int) -> Option<
    Seq<char>,
> {
    let src = sources[i];
    if !path::strictly_under(src.path, root) {
        Some(
            "source '"@ + src.name + "': path '"@ + src.path
                + "' must be a directory under the workspace root '"@ + root + "'"@,
        )
    } else {
        match earlier(sources, i, i) {
            Some(j) => Some(
                "sources '"@ + sources[j].name + "' and '"@ + src.name + "' share path '"@
                    + path::normalised(src.path) + "'"@,
            ),
            None => None,
        }
    }
}

/// What is wrong with the first of the first `n` sources that has something wrong with it.
pub open spec fn sources_problem(sources: Seq<SourceView>, root: Seq<char>, n: int) -> Option<
    Seq<char>,
>
    decreases n,
{
    if n <= 0 {
        None
    } else {
        match sources_problem(sources, root, n - 1) {
            Some(m) => Some(m),
            None => source_problem(sources, root, n - 1),
        }
    }
}

/// A problem among the first sources is the problem of all of them.
proof fn lemma_sources_problem(sources: Seq<SourceView>, root: Seq<char>, k: int, n: int)
    requires
        0 <= k <= n,
        sources_problem(sources, root, k) is Some,
    ensures
        sources_problem(sources, root, n) == sources_problem(sources, root, k),
    decreases n - k,
{
    if k < n {
        lemma_sources_problem(sources, root, k, n - 1);
    }
}

/// Which of the first `n` sources, if any, has the same path as source `i`.
fn earlier_source(sources: &Vec<Source>, i: usize) -> (r: Option<usize>)
    requires
        i < sources.len(),
    ensures
        match r {
            Some(j) => earlier(sources.deep_view(), i as int, i as int) == Some(j as int) && j < i,
            None => earlier(sources.deep_view(), i as int, i as int) is None,
        },
{
    let ghost all = sources.deep_view();
    let mine = path::components_of(sources[i].path.as_str());
    let mut j: usize = 0;
    while j < i
        invariant
            j <= i < sources.len(),
            all == sources.deep_view(),
            mine.deep_view() == path::components(all[i as int].path),
            earlier(all, i as int, j as int) is None,
        decreases i - j,
    {
        let other = path::components_of(sources[j].path.as_str());
        assert(all[j as int].path == sources@[j as int].path@);
        if path::same_list(&other, &mine) {
            proof {
                lemma_earlier(all, i as int, j + 1, i as int);
            }
            return Some(j);
        }
        j = j + 1;
    }
    None
}

/// Once an earlier source is found, later ones do not matter.
proof fn lemma_earlier(sources: Seq<SourceView>, i: int, k: int, n: int)
    requires
        0 <= k <= n,
        earlier(sources, i, k) is Some,
    ensures
        earlier(sources, i, n) == earlier(sources, i, k),
    decreases n - k,
{
    if k < n {
        lemma_earlier(sources, i, k, n - 1);
    }
}

/// What is wrong with the sources, if anything is: each has to lie strictly under the workspace
/// root, where the volume is mounted, and no two may share a path.
fn find_sources_problem(sources: &Vec<Source>, root: &str) -> (r: Option<String>)
    ensures
        r.deep_view() == sources_problem(sources.deep_view(), root@, sources.len() as int),
{
    let ghost all = sources.deep_view();
    let mut i: usize = 0;
    while i < sources.len()
        invariant
            i <= sources.len(),
            all == sources.deep_view(),
            sources_problem(all, root@, i as int) is None,
        decreases sources.len() - i,
    {
        let src = &sources[i];
        assert(all[i as int] == src.deep_view());
        if !path::is_strictly_under(src.path.as_str(), root) {
            proof {
                lemma_sources_problem(all, root@, i + 1, sources.len() as int);
            }
            return Some(
                "source '".to_string().concat(src.name.as_str()).concat("': path '").concat(
                    src.path.as_str(),
                ).concat("' must be a directory under the workspace root '").concat(root).concat(
                    "'",
                ),
            );
        }
        if let Some(j) = earlier_source(sources, i) {
            proof {
                lemma_sources_problem(all, root@, i + 1, sources.len() as int);
            }
            assert(all[j as int].name == sources@[j as int].name@);
            return Some(
                "sources '".to_string().concat(sources[j].name.as_str()).concat("' and '").concat(
                    src.name.as_str(),
                ).concat("' share path '").concat(
                    path::normalise(src.path.as_str()).as_str(),
                ).concat("'"),
            );
        }
        i = i + 1;
    }
    None
}

// ---------------------------------------------------------------------------------------------
// Validation: egress
// ---------------------------------------------------------------------------------------------

/// The first of the first `n` ports that is no TCP port.
pub open spec fn first_bad_port(ports: Seq<i32>, n: int) -> Option<i32>
    decreases n,
{
    if n <= 0 {
        None
    } else {
        match first_bad_port(ports, n - 1) {
            Some(p) => Some(p),
            None => if config::is_port(ports[n - 1]) {
                None
            } else {
                Some(ports[n - 1])
            },
        }
    }
}

/// What is wrong with an egress rule, if anything is.
pub open spec fn rule_problem(rule: EgressRuleView) -> Option<Seq<char>> {
    match ip::block_problem(rule.cidr) {
        Some(p) => Some("egress cidr '"@ + rule.cidr + "': "@ + p),
        None => match first_bad_port(rule.ports, rule.ports.len() as int) {
            Some(port) => Some(
                "egress cidr '"@ + rule.cidr + "': port "@ + text::decimal_int(port as int)
                    + " is outside 1-65535"@,
            ),
            None => None,
        },
    }
}

/// What is wrong with the first of the first `n` rules that has something wrong with it.
pub open spec fn rules_problem(rules: Seq<EgressRuleView>, n: int) -> Option<Seq<char>>
    decreases n,
{
    if n <= 0 {
        None
    } else {
        match rules_problem(rules, n - 1) {
            Some(m) => Some(m),
            None => rule_problem(rules[n - 1]),
        }
    }
}

/// What is wrong with an egress restriction, if anything is.
pub open spec fn egress_problem(egress: Option<EgressSpecView>) -> Option<Seq<char>> {
    match egress {
        Some(e) => rules_problem(e.allow, e.allow.len() as int),
        None => None,
    }
}

/// A problem among the first rules is the problem of all of them.
proof fn lemma_rules_problem(rules: Seq<EgressRuleView>, k: int, n: int)
    requires
        0 <= k <= n,
        rules_problem(rules, k) is Some,
    ensures
        rules_problem(rules, n) == rules_problem(rules, k),
    decreases n - k,
{
    if k < n {
        lemma_rules_problem(rules, k, n - 1);
    }
}

/// A bad port among the first ports is the first bad port of all of them.
proof fn lemma_first_bad_port(ports: Seq<i32>, k: int, n: int)
    requires
        0 <= k <= n,
        first_bad_port(ports, k) is Some,
    ensures
        first_bad_port(ports, n) == first_bad_port(ports, k),
    decreases n - k,
{
    if k < n {
        lemma_first_bad_port(ports, k, n - 1);
    }
}

/// The first port that is no TCP port.
fn find_bad_port(ports: &Vec<i32>) -> (r: Option<i32>)
    ensures
        r == first_bad_port(ports.deep_view(), ports.len() as int),
{
    let ghost all = ports.deep_view();
    let mut i: usize = 0;
    while i < ports.len()
        invariant
            i <= ports.len(),
            all == ports.deep_view(),
            first_bad_port(all, i as int) is None,
        decreases ports.len() - i,
    {
        let port: i32 = ports[i];
        assert(all[i as int] == port);
        if !config::valid_port(port) {
            proof {
                lemma_first_bad_port(all, i + 1, ports.len() as int);
            }
            return Some(port);
        }
        i = i + 1;
    }
    None
}

/// What is wrong with an egress restriction, if anything is. A malformed entry would fail every
/// apply of the network policy, or silently block the destination it was meant to allow.
fn find_egress_problem(egress: &Option<EgressSpec>) -> (r: Option<String>)
    ensures
        r.deep_view() == egress_problem(egress.deep_view()),
{
    let rules = match egress {
        Some(e) => &e.allow,
        None => return None,
    };
    let ghost all = rules.deep_view();
    let mut i: usize = 0;
    while i < rules.len()
        invariant
            i <= rules.len(),
            all == rules.deep_view(),
            egress.deep_view() == Some(EgressSpecView { allow: all }),
            rules_problem(all, i as int) is None,
        decreases rules.len() - i,
    {
        let rule = &rules[i];
        assert(all[i as int] == rule.deep_view());
        if let Some(p) = ip::cidr_problem(rule.cidr.as_str()) {
            proof {
                lemma_rules_problem(all, i + 1, rules.len() as int);
            }
            return Some(
                "egress cidr '".to_string().concat(rule.cidr.as_str()).concat("': ").concat(p),
            );
        }
        if let Some(port) = find_bad_port(&rule.ports) {
            proof {
                lemma_rules_problem(all, i + 1, rules.len() as int);
            }
            return Some(
                "egress cidr '".to_string().concat(rule.cidr.as_str()).concat("': port ").concat(
                    text::decimal_of(port as i64).as_str(),
                ).concat(" is outside 1-65535"),
            );
        }
        i = i + 1;
    }
    None
}

// ---------------------------------------------------------------------------------------------
// Validation: providers
// ---------------------------------------------------------------------------------------------

/// The position of the first of the first `n` providers that is named `name`.
pub open spec fn provider_at(providers: Seq<ProviderView>, name: Seq<char>, n: int) -> Option<int>
    decreases n,
{
    if n <= 0 {
        None
    } else {
        match provider_at(providers, name, n - 1) {
            Some(i) => Some(i),
            None => if providers[n - 1].name == name {
                Some(n - 1)
            } else {
                None
            },
        }
    }
}

/// Once a provider is found, later ones do not matter.
proof fn lemma_provider_at(providers: Seq<ProviderView>, name: Seq<char>, k: int, n: int)
    requires
        0 <= k <= n,
        provider_at(providers, name, k) is Some,
    ensures
        provider_at(providers, name, n) == provider_at(providers, name, k),
    decreases n - k,
{
    if k < n {
        lemma_provider_at(providers, name, k, n - 1);
    }
}

/// A provider of that name is among the first `n` exactly if it is found there.
pub proof fn lemma_provider_found(providers: Seq<ProviderView>, name: Seq<char>, n: int)
    requires
        0 <= n <= providers.len(),
    ensures
        match provider_at(providers, name, n) {
            Some(i) => {
                &&& 0 <= i < n
                &&& providers[i].name == name
                &&& forall|j: int| 0 <= j < i ==> (#[trigger] providers[j]).name != name
            },
            None => forall|j: int| 0 <= j < n ==> (#[trigger] providers[j]).name != name,
        },
    decreases n,
{
    if n > 0 {
        lemma_provider_found(providers, name, n - 1);
    }
}

/// The position of the first of the first `n` providers that is named `name`.
fn find_provider(providers: &Vec<Provider>, name: &str, n: usize) -> (r: Option<usize>)
    requires
        n <= providers.len(),
    ensures
        match r {
            Some(i) => provider_at(providers.deep_view(), name@, n as int) == Some(i as int) && i
                < n,
            None => provider_at(providers.deep_view(), name@, n as int) is None,
        },
{
    let ghost all = providers.deep_view();
    let mut i: usize = 0;
    while i < n
        invariant
            i <= n <= providers.len(),
            all == providers.deep_view(),
            provider_at(all, name@, i as int) is None,
        decreases n - i,
    {
        assert(all[i as int].name == providers@[i as int].name@);
        if text::same(providers[i].name.as_str(), name) {
            proof {
                lemma_provider_at(all, name@, i + 1, n as int);
            }
            return Some(i);
        }
        i = i + 1;
    }
    None
}

/// The first of the first `n` providers whose name an earlier one has.
pub open spec fn duplicate_at(providers: Seq<ProviderView>, n: int) -> Option<int>
    decreases n,
{
    if n <= 0 {
        None
    } else {
        match duplicate_at(providers, n - 1) {
            Some(i) => Some(i),
            None => if provider_at(providers, providers[n - 1].name, n - 1) is Some {
                Some(n - 1)
            } else {
                None
            },
        }
    }
}

/// Once a duplicate is found, later ones do not matter.
proof fn lemma_duplicate_at(providers: Seq<ProviderView>, k: int, n: int)
    requires
        0 <= k <= n,
        duplicate_at(providers, k) is Some,
    ensures
        duplicate_at(providers, n) == duplicate_at(providers, k),
    decreases n - k,
{
    if k < n {
        lemma_duplicate_at(providers, k, n - 1);
    }
}

/// What is wrong with the names of the providers, if anything is.
pub open spec fn providers_problem(spec: WorkspaceSpecView) -> Option<Seq<char>> {
    let n = spec.providers.len() as int;
    match duplicate_at(spec.providers, n) {
        Some(i) => Some("duplicate provider name '"@ + spec.providers[i].name + "'"@),
        None => match spec.default_provider {
            Some(dp) => if provider_at(spec.providers, dp, n) is None {
                Some("defaultProvider '"@ + dp + "' names no provider"@)
            } else {
                None
            },
            None => None,
        },
    }
}

/// What is wrong with the names of the providers, if anything is: no two may share a name, and the
/// default has to be one of them.
fn find_providers_problem(spec: &WorkspaceSpec) -> (r: Option<String>)
    ensures
        r.deep_view() == providers_problem(spec.deep_view()),
{
    let providers = &spec.providers;
    let ghost all = providers.deep_view();
    let mut i: usize = 0;
    while i < providers.len()
        invariant
            i <= providers.len(),
            all == providers.deep_view(),
            *providers == spec.providers,
            duplicate_at(all, i as int) is None,
        decreases providers.len() - i,
    {
        assert(all[i as int].name == providers@[i as int].name@);
        if find_provider(providers, providers[i].name.as_str(), i).is_some() {
            proof {
                lemma_duplicate_at(all, i + 1, providers.len() as int);
            }
            return Some(
                "duplicate provider name '".to_string().concat(providers[i].name.as_str()).concat(
                    "'",
                ),
            );
        }
        i = i + 1;
    }
    if let Some(dp) = &spec.default_provider {
        if find_provider(providers, dp.as_str(), providers.len()).is_none() {
            return Some(
                "defaultProvider '".to_string().concat(dp.as_str()).concat("' names no provider"),
            );
        }
    }
    None
}

// ---------------------------------------------------------------------------------------------
// Validation: the whole
// ---------------------------------------------------------------------------------------------

/// What is wrong with a workspace before its Secrets are looked at, if anything is.
pub open spec fn spec_problem(spec: WorkspaceSpecView, root: Seq<char>) -> Option<Seq<char>> {
    match sources_problem(spec.sources, root, spec.sources.len() as int) {
        Some(m) => Some(m),
        None => match egress_problem(spec.egress) {
            Some(m) => Some(m),
            None => providers_problem(spec),
        },
    }
}

/// What is said of provider `p` when its credential is not there.
pub open spec fn missing_secret(p: ProviderView) -> Seq<char> {
    "provider '"@ + p.name + "': secret '"@ + p.credentials_ref->0.secret_name + "' key '"@
        + p.credentials_ref->0.key + "' not found"@
}

impl WorkspaceValidationView {
    /// A workspace with nothing wrong.
    pub open spec fn ready() -> WorkspaceValidationView {
        WorkspaceValidationView { phase: WorkspacePhase::Ready, message: None }
    }

    /// A workspace with something wrong.
    pub open spec fn failed(message: Seq<char>) -> WorkspaceValidationView {
        WorkspaceValidationView { phase: WorkspacePhase::Failed, message: Some(message) }
    }
}

/// Whether `present` can answer `b` when asked for a key of a Secret.
pub open spec fn may_answer<F: Fn(&str, &str) -> bool>(
    present: F,
    c: CredentialsRefView,
    b: bool,
) -> bool {
    exists|s: &str, k: &str|
        s@ == c.secret_name && k@ == c.key && #[trigger] call_ensures(present, (s, k), b)
}

/// Whether the first `n` providers can have been looked at with every credential found.
pub open spec fn found_up_to<F: Fn(&str, &str) -> bool>(
    providers: Seq<ProviderView>,
    present: F,
    n: int,
) -> bool {
    forall|i: int|
        0 <= i < n && (#[trigger] providers[i]).credentials_ref is Some ==> may_answer(
            present,
            providers[i].credentials_ref->0,
            true,
        )
}

/// Whether `v` is what validating a workspace can give: the first problem of its own if it has one,
/// and otherwise the first provider whose credential `present` does not find, if there is one.
pub open spec fn may_validate<F: Fn(&str, &str) -> bool>(
    spec: WorkspaceSpecView,
    root: Seq<char>,
    present: F,
    v: WorkspaceValidationView,
) -> bool {
    match spec_problem(spec, root) {
        Some(m) => v == WorkspaceValidationView::failed(m),
        None => {
            ||| v == WorkspaceValidationView::ready() && found_up_to(
                spec.providers,
                present,
                spec.providers.len() as int,
            )
            ||| exists|n: int|
                {
                    &&& 0 <= n < spec.providers.len()
                    &&& (#[trigger] spec.providers[n]).credentials_ref is Some
                    &&& may_answer(present, spec.providers[n].credentials_ref->0, false)
                    &&& found_up_to(spec.providers, present, n)
                    &&& v == WorkspaceValidationView::failed(missing_secret(spec.providers[n]))
                }
        },
    }
}

/// Whether `present` can be asked for a key of a Secret.
pub open spec fn may_be_asked<F: Fn(&str, &str) -> bool>(present: F, c: CredentialsRefView) -> bool {
    forall|s: &str, k: &str|
        s@ == c.secret_name && k@ == c.key ==> #[trigger] call_requires(present, (s, k))
}

/// Whether `present` can be asked for all that validating a workspace asks it for: nothing if the
/// workspace has a problem of its own, and otherwise the credentials of its providers, each once all
/// before it were found.
pub open spec fn answers_validation<F: Fn(&str, &str) -> bool>(
    spec: WorkspaceSpecView,
    root: Seq<char>,
    present: F,
) -> bool {
    spec_problem(spec, root) is None ==> forall|i: int|
        0 <= i < spec.providers.len() && (#[trigger] spec.providers[i]).credentials_ref is Some
            && found_up_to(spec.providers, present, i) ==> may_be_asked(
            present,
            spec.providers[i].credentials_ref->0,
        )
}

/// Validates a `WorkspaceSpec`: every source path a distinct directory under `workspace_root`, a
/// well-formed egress allow-list, unique provider names, a resolvable default provider, and an
/// existing Secret key for every credential reference. `secret_present(secret_name, key)` reports
/// Secret-key existence. The first problem found wins, and nothing is looked up after it:
/// `secret_present` is asked only for the credential of a provider, in the order of the providers,
/// once the workspace itself is in order and every credential before was found.
pub fn validate_workspace<F: Fn(&str, &str) -> bool>(
    spec: &WorkspaceSpec,
    workspace_root: &str,
    secret_present: F,
) -> (r: WorkspaceValidation)
    requires
        answers_validation(spec.deep_view(), workspace_root@, secret_present),
    ensures
        may_validate(spec.deep_view(), workspace_root@, secret_present, r.deep_view()),
{
    let ghost sv = spec.deep_view();
    if let Some(m) = find_sources_problem(&spec.sources, workspace_root) {
        return WorkspaceValidation { phase: WorkspacePhase::Failed, message: Some(m) };
    }
    if let Some(m) = find_egress_problem(&spec.egress) {
        return WorkspaceValidation { phase: WorkspacePhase::Failed, message: Some(m) };
    }
    if let Some(m) = find_providers_problem(spec) {
        return WorkspaceValidation { phase: WorkspacePhase::Failed, message: Some(m) };
    }
    let providers = &spec.providers;
    let mut i: usize = 0;
    while i < providers.len()
        invariant
            i <= providers.len(),
            sv == spec.deep_view(),
            *providers == spec.providers,
            spec_problem(sv, workspace_root@) is None,
            answers_validation(sv, workspace_root@, secret_present),
            found_up_to(sv.providers, secret_present, i as int),
        decreases providers.len() - i,
    {
        let p = &providers[i];
        assert(sv.providers[i as int] == p.deep_view());
        if let Some(c) = &p.credentials_ref {
            let s = c.secret_name.as_str();
            let k = c.key.as_str();
            let there = secret_present(s, k);
            assert(may_answer(secret_present, c.deep_view(), there)) by {
                assert(call_ensures(secret_present, (s, k), there));
            }
            if !there {
                return WorkspaceValidation {
                    phase: WorkspacePhase::Failed,
                    message: Some(
                        "provider '".to_string().concat(p.name.as_str()).concat(
                            "': secret '",
                        ).concat(s).concat("' key '").concat(k).concat("' not found"),
                    ),
                };
            }
        }
        i = i + 1;
    }
    WorkspaceValidation { phase: WorkspacePhase::Ready, message: None }
}

// ---------------------------------------------------------------------------------------------
// Resolution
// ---------------------------------------------------------------------------------------------

impl ResolvedWorkspaceView {
    /// Whether the pinned policy admits an unattended task.
    pub open spec fn allows_unattended(self) -> bool {
        self.agent_policy matches Some(p) && p.allow_unattended
    }
}

impl ResolvedWorkspace {
    /// Whether the pinned policy admits an unattended task. A pin without a policy does not.
    pub fn allows_unattended(&self) -> (r: bool)
        ensures
            r == self.deep_view().allows_unattended(),
    {
        match &self.agent_policy {
            Some(p) => p.allow_unattended,
            None => false,
        }
    }
}

/// Which provider a task binds to: the one it asks for, or else the default, or else the only one.
pub open spec fn chosen_provider(
    spec: WorkspaceSpecView,
    provider_ref: Option<Seq<char>>,
) -> Result<int, Seq<char>> {
    let n = spec.providers.len() as int;
    match provider_ref {
        Some(name) => match provider_at(spec.providers, name, n) {
            Some(i) => Ok(i),
            None => Err("providerRef '"@ + name + "' names no provider in the workspace"@),
        },
        None => match spec.default_provider {
            Some(dp) => match provider_at(spec.providers, dp, n) {
                Some(i) => Ok(i),
                None => Err("defaultProvider '"@ + dp + "' names no provider"@),
            },
            None => if n == 1 {
                Ok(0)
            } else {
                Err(
                    "no providerRef and workspace has no defaultProvider among "@ + text::decimal(
                        spec.providers.len(),
                    ) + " providers"@,
                )
            },
        },
    }
}

/// The workspace configuration with one provider chosen.
pub open spec fn resolved_with(spec: WorkspaceSpecView, p: ProviderView) -> ResolvedWorkspaceView {
    ResolvedWorkspaceView {
        sources: spec.sources,
        provider: ResolvedProviderView {
            name: p.name,
            kind: p.kind,
            base_url: p.base_url,
            model: p.model,
            credentials_ref: p.credentials_ref,
        },
        env: spec.env,
        isolation: spec.isolation,
        egress: spec.egress,
        agent_policy: spec.agent_policy,
    }
}

/// The configuration that a task binds to, or why it binds to none.
pub open spec fn resolve(spec: WorkspaceSpecView, provider_ref: Option<Seq<char>>) -> Result<
    ResolvedWorkspaceView,
    Seq<char>,
> {
    match chosen_provider(spec, provider_ref) {
        Ok(i) => Ok(resolved_with(spec, spec.providers[i])),
        Err(e) => Err(e),
    }
}

/// Which provider a task binds to.
fn choose_provider(spec: &WorkspaceSpec, provider_ref: Option<&str>) -> (r: Result<usize, String>)
    ensures
        match r {
            Ok(i) => i < spec.providers.len() && chosen_provider(
                spec.deep_view(),
                provider_ref.deep_view(),
            ) == Ok::<int, Seq<char>>(i as int),
            Err(e) => chosen_provider(spec.deep_view(), provider_ref.deep_view()) == Err::<
                int,
                Seq<char>,
            >(e@),
        },
{
    let n = spec.providers.len();
    match provider_ref {
        Some(name) => match find_provider(&spec.providers, name, n) {
            Some(i) => Ok(i),
            None => Err(
                "providerRef '".to_string().concat(name).concat(
                    "' names no provider in the workspace",
                ),
            ),
        },
        None => match &spec.default_provider {
            Some(dp) => match find_provider(&spec.providers, dp.as_str(), n) {
                Some(i) => Ok(i),
                None => Err(
                    "defaultProvider '".to_string().concat(dp.as_str()).concat(
                        "' names no provider",
                    ),
                ),
            },
            None => if n == 1 {
                Ok(0)
            } else {
                let mut m =
                    "no providerRef and workspace has no defaultProvider among ".to_string();
                text::push_decimal(&mut m, n as u64);
                m.append(" providers");
                Err(m)
            },
        },
    }
}

/// Resolves a `WorkspaceSpec` and an optional provider reference to a single-provider
/// `ResolvedWorkspace`. Provider selection: explicit `provider_ref`, then the default provider,
/// then the sole provider if there is exactly one. Errors on a dangling reference or an ambiguous
/// choice.
pub fn resolve_workspace(spec: &WorkspaceSpec, provider_ref: Option<&str>) -> (r: Result<
    ResolvedWorkspace,
    String,
>)
    ensures
        match r {
            Ok(rw) => resolve(spec.deep_view(), provider_ref.deep_view()) == Ok::<
                ResolvedWorkspaceView,
                Seq<char>,
            >(rw.deep_view()),
            Err(e) => resolve(spec.deep_view(), provider_ref.deep_view()) == Err::<
                ResolvedWorkspaceView,
                Seq<char>,
            >(e@),
        },
{
    let i = match choose_provider(spec, provider_ref) {
        Ok(i) => i,
        Err(e) => return Err(e),
    };
    let chosen = &spec.providers[i];
    let sources = spec.sources.clone();
    assert(sources.deep_view() =~= spec.sources.deep_view());
    let env = spec.env.clone();
    assert(env.deep_view() =~= spec.env.deep_view());
    Ok(
        ResolvedWorkspace {
            sources,
            provider: ResolvedProvider {
                name: chosen.name.clone(),
                kind: chosen.kind.clone(),
                base_url: chosen.base_url.clone(),
                model: chosen.model.clone(),
                credentials_ref: chosen.credentials_ref.clone(),
            },
            env,
            isolation: spec.isolation.clone(),
            egress: spec.egress.clone(),
            agent_policy: spec.agent_policy,
        },
    )
}

// ---------------------------------------------------------------------------------------------
// Laws
// ---------------------------------------------------------------------------------------------

/// The first of the first `n` providers whose credential is not there.
pub open spec fn missing_at(
    providers: Seq<ProviderView>,
    present: spec_fn(Seq<char>, Seq<char>) -> bool,
    n: int,
) -> Option<int>
    decreases n,
{
    if n <= 0 {
        None
    } else {
        match missing_at(providers, present, n - 1) {
            Some(i) => Some(i),
            None => match providers[n - 1].credentials_ref {
                Some(c) => if present(c.secret_name, c.key) {
                    None
                } else {
                    Some(n - 1)
                },
                None => None,
            },
        }
    }
}

/// What validating a workspace gives when it is known which keys of which Secrets there are.
pub open spec fn validation_of(
    spec: WorkspaceSpecView,
    root: Seq<char>,
    present: spec_fn(Seq<char>, Seq<char>) -> bool,
) -> WorkspaceValidationView {
    match spec_problem(spec, root) {
        Some(m) => WorkspaceValidationView::failed(m),
        None => match missing_at(spec.providers, present, spec.providers.len() as int) {
            Some(i) => WorkspaceValidationView::failed(missing_secret(spec.providers[i])),
            None => WorkspaceValidationView::ready(),
        },
    }
}

/// Whether the answers of `f` are those of `present`.
pub open spec fn decides<F: Fn(&str, &str) -> bool>(
    f: F,
    present: spec_fn(Seq<char>, Seq<char>) -> bool,
) -> bool {
    forall|s: &str, k: &str, b: bool| #[trigger]
        call_ensures(f, (s, k), b) ==> b == present(s@, k@)
}

/// With a lookup whose answers are settled, validation has one outcome: the first problem of the
/// workspace's own, or else the first missing credential, or else none.
pub proof fn law_validation_is_determined<F: Fn(&str, &str) -> bool>(
    spec: WorkspaceSpecView,
    root: Seq<char>,
    f: F,
    present: spec_fn(Seq<char>, Seq<char>) -> bool,
    v: WorkspaceValidationView,
)
    requires
        decides(f, present),
        may_validate(spec, root, f, v),
    ensures
        v == validation_of(spec, root, present),
{
    if spec_problem(spec, root) is None {
        let len = spec.providers.len() as int;
        if v == WorkspaceValidationView::ready() && found_up_to(spec.providers, f, len) {
            lemma_none_missing(spec.providers, f, present, len);
        } else {
            let n = choose|n: int|
                {
                    &&& 0 <= n < spec.providers.len()
                    &&& (#[trigger] spec.providers[n]).credentials_ref is Some
                    &&& may_answer(f, spec.providers[n].credentials_ref->0, false)
                    &&& found_up_to(spec.providers, f, n)
                    &&& v == WorkspaceValidationView::failed(missing_secret(spec.providers[n]))
                };
            lemma_none_missing(spec.providers, f, present, n);
            lemma_missing_at(spec.providers, present, n + 1, len);
        }
    }
}

/// Nothing is looked up in a workspace with a problem of its own, nor for a provider without a
/// credential: whatever a lookup can be asked for, it is enough there.
pub proof fn law_only_credentials_are_looked_up<F: Fn(&str, &str) -> bool>(
    spec: WorkspaceSpecView,
    root: Seq<char>,
    f: F,
)
    requires
        spec_problem(spec, root) is Some || forall|i: int|
            0 <= i < spec.providers.len() ==> (#[trigger] spec.providers[i]).credentials_ref is None,
    ensures
        answers_validation(spec, root, f),
{
}

/// Nothing is looked up after a credential that is not there: a lookup that can be asked for the
/// credentials of the providers up to that one is enough.
pub proof fn law_lookups_stop_at_the_first_miss<F: Fn(&str, &str) -> bool>(
    spec: WorkspaceSpecView,
    root: Seq<char>,
    f: F,
    present: spec_fn(Seq<char>, Seq<char>) -> bool,
    n: int,
)
    requires
        decides(f, present),
        missing_at(spec.providers, present, spec.providers.len() as int) == Some(n),
        forall|i: int|
            0 <= i <= n && (#[trigger] spec.providers[i]).credentials_ref is Some ==> may_be_asked(
                f,
                spec.providers[i].credentials_ref->0,
            ),
    ensures
        answers_validation(spec, root, f),
{
    let ps = spec.providers;
    lemma_missing_is_missing(ps, present, ps.len() as int);
    assert forall|i: int| n < i < ps.len() implies !found_up_to(ps, f, i) by {
        if found_up_to(ps, f, i) {
            assert(ps[n].credentials_ref is Some);
            assert(may_answer(f, ps[n].credentials_ref->0, true));
        }
    }
}

/// The credential of the provider named as missing is not there.
proof fn lemma_missing_is_missing(
    providers: Seq<ProviderView>,
    present: spec_fn(Seq<char>, Seq<char>) -> bool,
    n: int,
)
    requires
        n <= providers.len(),
    ensures
        missing_at(providers, present, n) matches Some(i) ==> {
            &&& 0 <= i < n
            &&& providers[i].credentials_ref matches Some(c) && !present(c.secret_name, c.key)
        },
    decreases n,
{
    if n > 0 {
        lemma_missing_is_missing(providers, present, n - 1);
    }
}

proof fn lemma_none_missing<F: Fn(&str, &str) -> bool>(
    providers: Seq<ProviderView>,
    f: F,
    present: spec_fn(Seq<char>, Seq<char>) -> bool,
    n: int,
)
    requires
        0 <= n <= providers.len(),
        decides(f, present),
        found_up_to(providers, f, n),
    ensures
        missing_at(providers, present, n) is None,
    decreases n,
{
    if n > 0 {
        assert(found_up_to(providers, f, n - 1));
        lemma_none_missing(providers, f, present, n - 1);
        if providers[n - 1].credentials_ref is Some {
            assert(may_answer(f, providers[n - 1].credentials_ref->0, true));
        }
    }
}

proof fn lemma_missing_at(
    providers: Seq<ProviderView>,
    present: spec_fn(Seq<char>, Seq<char>) -> bool,
    k: int,
    n: int,
)
    requires
        0 <= k <= n,
        missing_at(providers, present, k) is Some,
    ensures
        missing_at(providers, present, n) == missing_at(providers, present, k),
    decreases n - k,
{
    if k < n {
        lemma_missing_at(providers, present, k, n - 1);
    }
}

/// Validation never leaves a workspace pending, and says what is wrong exactly if something is.
pub proof fn law_validation_settles(
    spec: WorkspaceSpecView,
    root: Seq<char>,
    present: spec_fn(Seq<char>, Seq<char>) -> bool,
)
    ensures
        validation_of(spec, root, present).phase != WorkspacePhase::Pending,
        validation_of(spec, root, present).phase == WorkspacePhase::Failed <==> validation_of(
            spec,
            root,
            present,
        ).message is Some,
{
}

/// What a workspace that is ready has to offer: its sources lie strictly under the root and share
/// no path, its egress rules are well formed, its provider names are unique, its default provider
/// is one of them, and every credential is there.
pub open spec fn is_sound(
    spec: WorkspaceSpecView,
    root: Seq<char>,
    present: spec_fn(Seq<char>, Seq<char>) -> bool,
) -> bool {
    &&& forall|i: int|
        0 <= i < spec.sources.len() ==> path::strictly_under(
            (#[trigger] spec.sources[i]).path,
            root,
        )
    &&& forall|i: int, j: int|
        0 <= i < j < spec.sources.len() ==> path::components((#[trigger] spec.sources[i]).path)
            != path::components((#[trigger] spec.sources[j]).path)
    &&& spec.egress matches Some(e) ==> forall|i: int|
        0 <= i < e.allow.len() ==> is_sound_rule(#[trigger] e.allow[i])
    &&& forall|i: int, j: int|
        0 <= i < j < spec.providers.len() ==> (#[trigger] spec.providers[i]).name != (
        #[trigger] spec.providers[j]).name
    &&& spec.default_provider matches Some(dp) ==> exists|i: int|
        0 <= i < spec.providers.len() && (#[trigger] spec.providers[i]).name == dp
    &&& forall|i: int|
        0 <= i < spec.providers.len() && (#[trigger] spec.providers[i]).credentials_ref is Some
            ==> present(
            spec.providers[i].credentials_ref->0.secret_name,
            spec.providers[i].credentials_ref->0.key,
        )
}

/// Whether an egress rule names an address block and TCP ports.
pub open spec fn is_sound_rule(rule: EgressRuleView) -> bool {
    &&& ip::block_problem(rule.cidr) is None
    &&& forall|k: int| 0 <= k < rule.ports.len() ==> config::is_port(#[trigger] rule.ports[k])
}

/// A workspace is ready exactly if it is sound.
pub proof fn law_ready_means_sound(
    spec: WorkspaceSpecView,
    root: Seq<char>,
    present: spec_fn(Seq<char>, Seq<char>) -> bool,
)
    ensures
        validation_of(spec, root, present).phase == WorkspacePhase::Ready <==> is_sound(
            spec,
            root,
            present,
        ),
{
    lemma_sources_sound(spec.sources, root, spec.sources.len() as int);
    if let Some(e) = spec.egress {
        lemma_rules_sound(e.allow, e.allow.len() as int);
    }
    let n = spec.providers.len() as int;
    lemma_names_unique(spec.providers, n);
    if let Some(dp) = spec.default_provider {
        lemma_provider_found(spec.providers, dp, n);
    }
    lemma_present(spec.providers, present, n);
}

proof fn lemma_earlier_found(sources: Seq<SourceView>, i: int, n: int)
    requires
        0 <= n <= sources.len(),
    ensures
        earlier(sources, i, n) is None <==> (forall|j: int|
            0 <= j < n ==> path::components((#[trigger] sources[j]).path) != path::components(
                sources[i].path,
            )),
    decreases n,
{
    if n > 0 {
        lemma_earlier_found(sources, i, n - 1);
    }
}

proof fn lemma_sources_sound(sources: Seq<SourceView>, root: Seq<char>, n: int)
    requires
        0 <= n <= sources.len(),
    ensures
        sources_problem(sources, root, n) is None <==> {
            &&& forall|i: int|
                0 <= i < n ==> path::strictly_under((#[trigger] sources[i]).path, root)
            &&& forall|i: int, j: int|
                0 <= i < j < n ==> path::components((#[trigger] sources[i]).path)
                    != path::components((#[trigger] sources[j]).path)
        },
    decreases n,
{
    if n > 0 {
        lemma_sources_sound(sources, root, n - 1);
        lemma_earlier_found(sources, n - 1, n - 1);
    }
}

proof fn lemma_ports_sound(ports: Seq<i32>, n: int)
    requires
        0 <= n <= ports.len(),
    ensures
        first_bad_port(ports, n) is None <==> (forall|k: int|
            0 <= k < n ==> config::is_port(#[trigger] ports[k])),
    decreases n,
{
    if n > 0 {
        lemma_ports_sound(ports, n - 1);
    }
}

proof fn lemma_rules_sound(rules: Seq<EgressRuleView>, n: int)
    requires
        0 <= n <= rules.len(),
    ensures
        rules_problem(rules, n) is None <==> (forall|i: int|
            0 <= i < n ==> is_sound_rule(#[trigger] rules[i])),
    decreases n,
{
    if n > 0 {
        lemma_rules_sound(rules, n - 1);
        let rule = rules[n - 1];
        lemma_ports_sound(rule.ports, rule.ports.len() as int);
    }
}

proof fn lemma_names_unique(providers: Seq<ProviderView>, n: int)
    requires
        0 <= n <= providers.len(),
    ensures
        duplicate_at(providers, n) is None <==> (forall|i: int, j: int|
            0 <= i < j < n ==> (#[trigger] providers[i]).name != (#[trigger] providers[j]).name),
    decreases n,
{
    if n > 0 {
        lemma_names_unique(providers, n - 1);
        lemma_provider_found(providers, providers[n - 1].name, n - 1);
    }
}

proof fn lemma_present(
    providers: Seq<ProviderView>,
    present: spec_fn(Seq<char>, Seq<char>) -> bool,
    n: int,
)
    requires
        0 <= n <= providers.len(),
    ensures
        missing_at(providers, present, n) is None <==> (forall|i: int|
            0 <= i < n && (#[trigger] providers[i]).credentials_ref is Some ==> present(
                providers[i].credentials_ref->0.secret_name,
                providers[i].credentials_ref->0.key,
            )),
    decreases n,
{
    if n > 0 {
        lemma_present(providers, present, n - 1);
    }
}

/// A task binds to the provider it asks for exactly if the workspace has one of that name; a task
/// that asks for none binds to the default of a ready workspace, or to its only provider.
pub proof fn law_resolution(
    spec: WorkspaceSpecView,
    root: Seq<char>,
    present: spec_fn(Seq<char>, Seq<char>) -> bool,
    name: Seq<char>,
)
    ensures
        resolve(spec, Some(name)) is Ok <==> (exists|i: int|
            0 <= i < spec.providers.len() && (#[trigger] spec.providers[i]).name == name),
        resolve(spec, Some(name)) matches Ok(rw) ==> rw.provider.name == name,
        is_sound(spec, root, present) ==> (resolve(spec, None) is Ok <==> spec.default_provider
            is Some || spec.providers.len() == 1),
        spec.default_provider is Some ==> (resolve(spec, None) matches Ok(rw)
            ==> rw.provider.name == spec.default_provider->0),
{
    let n = spec.providers.len() as int;
    lemma_provider_found(spec.providers, name, n);
    if let Some(dp) = spec.default_provider {
        lemma_provider_found(spec.providers, dp, n);
    }
}

/// What a task is pinned to is the workspace as it stands, with one of its providers: no part of
/// it comes from the task, the egress restriction and the agent policy included.
pub proof fn law_resolution_keeps_the_workspace(
    spec: WorkspaceSpecView,
    provider_ref: Option<Seq<char>>,
)
    ensures
        resolve(spec, provider_ref) matches Ok(rw) ==> {
            &&& exists|i: int|
                0 <= i < spec.providers.len() && rw == resolved_with(
                    spec,
                    #[trigger] spec.providers[i],
                )
            &&& rw.egress == spec.egress
            &&& rw.allows_unattended() == (spec.agent_policy matches Some(p)
                && p.allow_unattended)
        },
{
    let n = spec.providers.len() as int;
    if let Some(name) = provider_ref {
        lemma_provider_found(spec.providers, name, n);
    }
    if let Some(dp) = spec.default_provider {
        lemma_provider_found(spec.providers, dp, n);
    }
    if let Ok(i) = chosen_provider(spec, provider_ref) {
        assert(0 <= i < n);
        assert(resolve(spec, provider_ref) == Ok::<ResolvedWorkspaceView, Seq<char>>(
            resolved_with(spec, spec.providers[i]),
        ));
    }
}

/// Whatever a task resolves to binds it to one provider of the workspace in every field: the first
/// that has the name it asks for, or else the default's, or else the only one. Everything besides
/// is the workspace's, as it stands.
pub proof fn law_resolution_binds_one_provider(
    spec: WorkspaceSpecView,
    provider_ref: Option<Seq<char>>,
)
    ensures
        resolve(spec, provider_ref) matches Ok(rw) ==> {
            &&& exists|i: int|
                {
                    let p = #[trigger] spec.providers[i];
                    &&& 0 <= i < spec.providers.len()
                    &&& rw.provider.name == p.name
                    &&& rw.provider.kind == p.kind
                    &&& rw.provider.base_url == p.base_url
                    &&& rw.provider.model == p.model
                    &&& rw.provider.credentials_ref == p.credentials_ref
                    &&& provider_ref matches Some(name) ==> p.name == name
                    &&& provider_ref is None && spec.default_provider is Some ==> p.name
                        == spec.default_provider->0
                    &&& provider_ref is None && spec.default_provider is None
                        ==> spec.providers.len() == 1
                    &&& forall|j: int| 0 <= j < i ==> (#[trigger] spec.providers[j]).name != p.name
                }
            &&& rw.sources == spec.sources
            &&& rw.env == spec.env
            &&& rw.isolation == spec.isolation
            &&& rw.egress == spec.egress
            &&& rw.agent_policy == spec.agent_policy
        },
{
    let n = spec.providers.len() as int;
    if let Some(name) = provider_ref {
        lemma_provider_found(spec.providers, name, n);
    }
    if let Some(dp) = spec.default_provider {
        lemma_provider_found(spec.providers, dp, n);
    }
    if let Ok(i) = chosen_provider(spec, provider_ref) {
        let p = spec.providers[i];
        assert(0 <= i < n);
        assert(resolve(spec, provider_ref)->Ok_0.provider.name == p.name);
    }
}

/// A task that does not resolve is told why: its own reference or the default dangles, or it has to
/// choose and does not. It resolves in every other case.
pub proof fn law_resolution_fails(spec: WorkspaceSpecView, provider_ref: Option<Seq<char>>)
    ensures
        ({
            let has = |name: Seq<char>|
                exists|i: int|
                    0 <= i < spec.providers.len() && (#[trigger] spec.providers[i]).name == name;
            let r = resolve(spec, provider_ref);
            match provider_ref {
                Some(name) => if has(name) {
                    r is Ok
                } else {
                    r == Err::<ResolvedWorkspaceView, Seq<char>>(
                        "providerRef '"@ + name + "' names no provider in the workspace"@,
                    )
                },
                None => match spec.default_provider {
                    Some(dp) => if has(dp) {
                        r is Ok
                    } else {
                        r == Err::<ResolvedWorkspaceView, Seq<char>>(
                            "defaultProvider '"@ + dp + "' names no provider"@,
                        )
                    },
                    None => if spec.providers.len() == 1 {
                        r is Ok
                    } else {
                        r == Err::<ResolvedWorkspaceView, Seq<char>>(
                            "no providerRef and workspace has no defaultProvider among "@
                                + text::decimal(spec.providers.len()) + " providers"@,
                        )
                    },
                },
            }
        }),
{
    let n = spec.providers.len() as int;
    if let Some(name) = provider_ref {
        lemma_provider_found(spec.providers, name, n);
    }
    if let Some(dp) = spec.default_provider {
        lemma_provider_found(spec.providers, dp, n);
    }
}

/// The policy that a task is pinned to allows it to run unattended only if it is there and says so.
pub proof fn law_unattended_is_opt_in(rw: ResolvedWorkspaceView)
    ensures
        rw.agent_policy is None ==> !rw.allows_unattended(),
        rw.agent_policy matches Some(p) ==> rw.allows_unattended() == p.allow_unattended,
{
}

/// A workspace is ready exactly if every source has a directory of its own under the root, every
/// egress rule names a block and TCP ports, no two providers share a name, the default is one of
/// them, and every credential is there.
pub proof fn law_ready(
    spec: WorkspaceSpecView,
    root: Seq<char>,
    present: spec_fn(Seq<char>, Seq<char>) -> bool,
)
    ensures
        validation_of(spec, root, present).phase == WorkspacePhase::Ready <==> {
            &&& forall|i: int|
                0 <= i < spec.sources.len() ==> path::strictly_under(
                    (#[trigger] spec.sources[i]).path,
                    root,
                )
            &&& forall|i: int, j: int|
                0 <= i < j < spec.sources.len() ==> path::segments((#[trigger] spec.sources[i]).path)
                    != path::segments((#[trigger] spec.sources[j]).path)
            &&& spec.egress matches Some(e) ==> forall|i: int|
                0 <= i < e.allow.len() ==> ip::block_problem((#[trigger] e.allow[i]).cidr) is None
                    && forall|k: int|
                    0 <= k < e.allow[i].ports.len() ==> 1 <= #[trigger] e.allow[i].ports[k] <= 65535
            &&& forall|i: int, j: int|
                0 <= i < j < spec.providers.len() ==> (#[trigger] spec.providers[i]).name != (
                #[trigger] spec.providers[j]).name
            &&& spec.default_provider matches Some(dp) ==> exists|i: int|
                0 <= i < spec.providers.len() && (#[trigger] spec.providers[i]).name == dp
            &&& forall|i: int|
                0 <= i < spec.providers.len() && (#[trigger] spec.providers[i]).credentials_ref
                    is Some ==> present(
                    spec.providers[i].credentials_ref->0.secret_name,
                    spec.providers[i].credentials_ref->0.key,
                )
        },
{
    law_ready_means_sound(spec, root, present);
    law_validation_settles(spec, root, present);
    if forall|i: int|
        0 <= i < spec.sources.len() ==> path::strictly_under(
            (#[trigger] spec.sources[i]).path,
            root,
        ) {
        assert forall|i: int, j: int| 0 <= i < j < spec.sources.len() implies (path::components(
            (#[trigger] spec.sources[i]).path,
        ) == path::components((#[trigger] spec.sources[j]).path) <==> path::segments(
            spec.sources[i].path,
        ) == path::segments(spec.sources[j].path)) by {
            path::law_normalised(spec.sources[i].path, spec.sources[j].path);
        }
    }
    if let Some(e) = spec.egress {
        assert forall|i: int| 0 <= i < e.allow.len() implies (is_sound_rule(#[trigger] e.allow[i])
            <==> ip::block_problem(e.allow[i].cidr) is None && forall|k: int|
            0 <= k < e.allow[i].ports.len() ==> 1 <= #[trigger] e.allow[i].ports[k] <= 65535) by {
            let rule = e.allow[i];
            if is_sound_rule(rule) {
                assert forall|k: int| 0 <= k < rule.ports.len() implies 1 <= #[trigger] rule.ports[k]
                    <= 65535 by {
                    assert(config::is_port(rule.ports[k]));
                }
            }
        }
    }
}

/// Whether the first `n` sources have directories of their own under the root.
pub open spec fn sources_are_sound(sources: Seq<SourceView>, root: Seq<char>, n: int) -> bool {
    &&& forall|i: int| 0 <= i < n ==> path::strictly_under((#[trigger] sources[i]).path, root)
    &&& forall|i: int, j: int|
        0 <= i < j < n ==> path::segments((#[trigger] sources[i]).path) != path::segments(
            (#[trigger] sources[j]).path,
        )
}

proof fn lemma_sources_are_sound(sources: Seq<SourceView>, root: Seq<char>, n: int)
    requires
        0 <= n <= sources.len(),
        sources_are_sound(sources, root, n),
    ensures
        sources_problem(sources, root, n) is None,
{
    assert forall|i: int, j: int| 0 <= i < j < n implies path::components(
        (#[trigger] sources[i]).path,
    ) != path::components((#[trigger] sources[j]).path) by {
        path::law_normalised(sources[i].path, sources[j].path);
    }
    lemma_sources_sound(sources, root, n);
}

/// The first source that is not under the root is named, with its path and the root; the first that
/// shares a path is named with the one that had it before. Nothing else of the workspace matters
/// then.
pub proof fn law_bad_source_is_named(
    spec: WorkspaceSpecView,
    root: Seq<char>,
    present: spec_fn(Seq<char>, Seq<char>) -> bool,
    i: int,
    j: int,
)
    requires
        0 <= i < spec.sources.len(),
        sources_are_sound(spec.sources, root, i),
    ensures
        !path::strictly_under(spec.sources[i].path, root) ==> validation_of(spec, root, present)
            == WorkspaceValidationView::failed(
            "source '"@ + spec.sources[i].name + "': path '"@ + spec.sources[i].path
                + "' must be a directory under the workspace root '"@ + root + "'"@,
        ),
        path::strictly_under(spec.sources[i].path, root) && 0 <= j < i && path::segments(
            spec.sources[j].path,
        ) == path::segments(spec.sources[i].path) ==> validation_of(spec, root, present)
            == WorkspaceValidationView::failed(
            "sources '"@ + spec.sources[j].name + "' and '"@ + spec.sources[i].name
                + "' share path '"@ + path::normalised(spec.sources[i].path) + "'"@,
        ),
{
    let all = spec.sources;
    lemma_sources_are_sound(all, root, i);
    if path::strictly_under(all[i].path, root) && 0 <= j < i && path::segments(all[j].path)
        == path::segments(all[i].path) {
        assert(path::strictly_under(all[j].path, root));
        path::law_normalised(all[j].path, all[i].path);
        assert forall|k: int| 0 <= k < j implies path::components((#[trigger] all[k]).path)
            != path::components(all[i].path) by {
            assert(path::segments(all[k].path) != path::segments(all[j].path));
            path::law_normalised(all[k].path, all[i].path);
        }
        lemma_earlier_found(all, i, j);
        lemma_earlier(all, i, j + 1, i);
    }
    if sources_problem(all, root, i + 1) is Some {
        lemma_sources_problem(all, root, i + 1, all.len() as int);
    }
}

/// The first egress rule with something wrong is named by its block, with what is wrong with the
/// block, or else with its first port that is none.
pub proof fn law_bad_rule_is_named(
    spec: WorkspaceSpecView,
    root: Seq<char>,
    present: spec_fn(Seq<char>, Seq<char>) -> bool,
    i: int,
    k: int,
)
    requires
        sources_are_sound(spec.sources, root, spec.sources.len() as int),
        spec.egress is Some,
        0 <= i < spec.egress->0.allow.len(),
        forall|j: int|
            0 <= j < i ==> ip::block_problem((#[trigger] spec.egress->0.allow[j]).cidr) is None
                && forall|l: int|
                0 <= l < spec.egress->0.allow[j].ports.len() ==> 1
                    <= #[trigger] spec.egress->0.allow[j].ports[l] <= 65535,
    ensures
        ({
            let rule = spec.egress->0.allow[i];
            &&& ip::block_problem(rule.cidr) matches Some(p) ==> validation_of(spec, root, present)
                == WorkspaceValidationView::failed("egress cidr '"@ + rule.cidr + "': "@ + p)
            &&& ip::block_problem(rule.cidr) is None && 0 <= k < rule.ports.len() && !(1
                <= rule.ports[k] <= 65535) && (forall|l: int|
                0 <= l < k ==> 1 <= #[trigger] rule.ports[l] <= 65535) ==> validation_of(
                spec,
                root,
                present,
            ) == WorkspaceValidationView::failed(
                "egress cidr '"@ + rule.cidr + "': port "@ + text::decimal_int(rule.ports[k] as int)
                    + " is outside 1-65535"@,
            )
        }),
{
    let all = spec.egress->0.allow;
    let rule = all[i];
    lemma_sources_are_sound(spec.sources, root, spec.sources.len() as int);
    assert forall|j: int| 0 <= j < i implies is_sound_rule(#[trigger] all[j]) by {
        assert(ip::block_problem(all[j].cidr) is None);
        assert forall|l: int| 0 <= l < all[j].ports.len() implies config::is_port(
            #[trigger] all[j].ports[l],
        ) by {}
    }
    lemma_rules_sound(all, i);
    if 0 <= k < rule.ports.len() && !(1 <= rule.ports[k] <= 65535) && (forall|l: int|
        0 <= l < k ==> 1 <= #[trigger] rule.ports[l] <= 65535) {
        assert forall|l: int| 0 <= l < k implies config::is_port(#[trigger] rule.ports[l]) by {}
        lemma_ports_sound(rule.ports, k);
        assert(first_bad_port(rule.ports, k + 1) == Some(rule.ports[k]));
        lemma_first_bad_port(rule.ports, k + 1, rule.ports.len() as int);
    }
    if rules_problem(all, i + 1) is Some {
        lemma_rules_problem(all, i + 1, all.len() as int);
    }
}

/// The first provider whose name an earlier one has is named; then a default that is none of them;
/// and then the first provider whose credential is not there, with its Secret and its key.
pub proof fn law_bad_provider_is_named(
    spec: WorkspaceSpecView,
    root: Seq<char>,
    present: spec_fn(Seq<char>, Seq<char>) -> bool,
    i: int,
)
    requires
        sources_are_sound(spec.sources, root, spec.sources.len() as int),
        egress_problem(spec.egress) is None,
        0 <= i < spec.providers.len(),
    ensures
        ({
            let all = spec.providers;
            let unique = |n: int|
                forall|j: int, k: int|
                    0 <= j < k < n ==> (#[trigger] all[j]).name != (#[trigger] all[k]).name;
            let has = |name: Seq<char>, n: int|
                exists|j: int| 0 <= j < n && (#[trigger] all[j]).name == name;
            let there = |j: int|
                all[j].credentials_ref is Some ==> present(
                    all[j].credentials_ref->0.secret_name,
                    all[j].credentials_ref->0.key,
                );
            let v = validation_of(spec, root, present);
            let default_ok = spec.default_provider is Some ==> has(
                spec.default_provider->0,
                all.len() as int,
            );
            &&& unique(i) && has(all[i].name, i) ==> v == WorkspaceValidationView::failed(
                "duplicate provider name '"@ + all[i].name + "'"@,
            )
            &&& unique(all.len() as int) && !default_ok ==> v == WorkspaceValidationView::failed(
                "defaultProvider '"@ + spec.default_provider->0 + "' names no provider"@,
            )
            &&& unique(all.len() as int) && default_ok && (forall|j: int|
                #![trigger all[j]]
                0 <= j < i ==> there(j)) && !there(i) ==> v == WorkspaceValidationView::failed(
                "provider '"@ + all[i].name + "': secret '"@
                    + all[i].credentials_ref->0.secret_name + "' key '"@
                    + all[i].credentials_ref->0.key + "' not found"@,
            )
        }),
{
    let all = spec.providers;
    let n = all.len() as int;
    lemma_sources_are_sound(spec.sources, root, spec.sources.len() as int);
    lemma_names_unique(all, i);
    lemma_names_unique(all, n);
    lemma_provider_found(all, all[i].name, i);
    if duplicate_at(all, i) is None && provider_at(all, all[i].name, i) is Some {
        assert(duplicate_at(all, i + 1) == Some(i));
        lemma_duplicate_at(all, i + 1, n);
    }
    if let Some(dp) = spec.default_provider {
        lemma_provider_found(all, dp, n);
    }
    lemma_present(all, present, i);
    if missing_at(all, present, i) is None && missing_at(all, present, i + 1) is Some {
        lemma_missing_at(all, present, i + 1, n);
    }
}

/// A validation that failed says so, and why.
pub proof fn law_failed_validation(m: Seq<char>)
    ensures
        WorkspaceValidationView::failed(m).phase == WorkspacePhase::Failed,
        WorkspaceValidationView::failed(m).message == Some(m),
{
}

} // verus!
