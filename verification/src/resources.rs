//! Builders mapping a `CalibanTask` to the child objects a reconcile applies: a token-less
//! ServiceAccount, a default-deny NetworkPolicy, and the backing agent-sandbox Sandbox.

use vstd::prelude::*;

use crate::config;
use crate::config::{
    caliband_advertise_host, common_labels, netpol_name, owner_ref, sa_name, sandbox_name, Settings,
    SettingsView,
};
use crate::crd::{CalibanTask, CalibanTaskView, IsolationSpec, IsolationSpecView};
use crate::env;
use crate::objects::{
    ConfigMapVolumeSource, ConfigMapVolumeSourceView, Container, ContainerPort, ContainerPortView,
    ContainerView, EnvVar, EnvVarView, IPBlock, IPBlockView, LabelSelector, LabelSelectorView,
    NetworkPolicy, NetworkPolicyEgressRule, NetworkPolicyEgressRuleView, NetworkPolicyIngressRule,
    NetworkPolicyIngressRuleView, NetworkPolicyPeer, NetworkPolicyPeerView, NetworkPolicyPort,
    NetworkPolicyPortView, NetworkPolicySpec, NetworkPolicySpecView, NetworkPolicyView, ObjectMeta,
    ObjectMetaView, PersistentVolumeClaimSpec, PersistentVolumeClaimSpecView, PodSpec, PodSpecView,
    PodTemplateSpec, PodTemplateSpecView, Probe, ProbeView, ResourceRequirements,
    ResourceRequirementsView, SecretVolumeSource, SecretVolumeSourceView, ServiceAccount,
    ServiceAccountView, TCPSocketAction, TCPSocketActionView, Volume, VolumeMount, VolumeMountView,
    VolumeResourceRequirements, VolumeResourceRequirementsView, VolumeView,
};
use crate::sandbox::{
    Sandbox, SandboxSpec, SandboxSpecView, SandboxView, VolumeClaimTemplate, VolumeClaimTemplateView,
};
use crate::shell;
use crate::storage;
use crate::string_map::StringMap;
use crate::text;
use crate::workspace::{
    EgressRule, EgressRuleView, EgressSpec, EgressSpecView, EnvEntryView, ResolvedProvider,
    ResolvedProviderView, ResolvedWorkspace, ResolvedWorkspaceView, SourceView,
};

verus! {

// ---------------------------------------------------------------------------------------------
// Metadata and the ServiceAccount
// ---------------------------------------------------------------------------------------------

/// Metadata of a child of `t`: in its namespace, with its labels, owned by it.
pub open spec fn meta_of(t: CalibanTaskView, name: Seq<char>) -> ObjectMetaView {
    ObjectMetaView {
        name: Some(name),
        generate_name: None,
        namespace: t.metadata.namespace,
        uid: None,
        generation: None,
        labels: Some(t.labels()),
        owner_references: Some(seq![t.owner_ref()]),
    }
}

/// Metadata of a child of `t`.
fn child_meta(t: &CalibanTask, name: String) -> (r: ObjectMeta)
    ensures
        r.deep_view() == meta_of(t.deep_view(), name@),
{
    let owners = vec![owner_ref(t)];
    assert(owners.deep_view() =~= seq![t.deep_view().owner_ref()]);
    ObjectMeta {
        name: Some(name),
        generate_name: None,
        namespace: t.metadata.namespace.clone(),
        uid: None,
        generation: None,
        labels: Some(common_labels(t)),
        owner_references: Some(owners),
    }
}

/// The ServiceAccount of `t`.
pub open spec fn service_account_of(t: CalibanTaskView) -> ServiceAccountView {
    ServiceAccountView {
        metadata: meta_of(t, t.sa_name()),
        automount_service_account_token: Some(false),
    }
}

/// A dedicated, token-less ServiceAccount: the pod's least-privilege identity.
pub fn build_service_account(t: &CalibanTask) -> (r: ServiceAccount)
    ensures
        r.deep_view() == service_account_of(t.deep_view()),
{
    ServiceAccount {
        metadata: child_meta(t, sa_name(t)),
        automount_service_account_token: Some(false),
    }
}

// ---------------------------------------------------------------------------------------------
// The NetworkPolicy
// ---------------------------------------------------------------------------------------------

/// The label that carries the name of a namespace.
pub const NAMESPACE_LABEL: &'static str = "kubernetes.io/metadata.name";

/// A single port.
pub open spec fn port_of(proto: Seq<char>, port: i32) -> NetworkPolicyPortView {
    NetworkPolicyPortView { protocol: Some(proto), port: Some(port), end_port: None }
}

/// The ports from `start` to `end`, both included.
pub open spec fn port_range_of(proto: Seq<char>, start: i32, end: i32) -> NetworkPolicyPortView {
    NetworkPolicyPortView { protocol: Some(proto), port: Some(start), end_port: Some(end) }
}

/// A single port.
fn np_port(proto: &str, port: i32) -> (r: NetworkPolicyPort)
    ensures
        r.deep_view() == port_of(proto@, port),
{
    NetworkPolicyPort { protocol: Some(proto.to_string()), port: Some(port), end_port: None }
}

/// The ports from `start` to `end`, both included (for caliband's per-agent stream window).
fn np_port_range(proto: &str, start: i32, end: i32) -> (r: NetworkPolicyPort)
    ensures
        r.deep_view() == port_range_of(proto@, start, end),
{
    NetworkPolicyPort { protocol: Some(proto.to_string()), port: Some(start), end_port: Some(end) }
}

/// Who may reach caliband: the selected pods (all of them, without labels to select by) of the
/// configured namespace, or of the task's own.
pub open spec fn peer_of(s: SettingsView) -> NetworkPolicyPeerView {
    NetworkPolicyPeerView {
        pod_selector: Some(
            LabelSelectorView {
                match_labels: if s.ingress_pod_selector == Map::<Seq<char>, Seq<char>>::empty() {
                    None
                } else {
                    Some(s.ingress_pod_selector)
                },
            },
        ),
        namespace_selector: match s.ingress_namespace {
            Some(ns) => Some(
                LabelSelectorView { match_labels: Some(map![NAMESPACE_LABEL@ => ns]) },
            ),
            None => None,
        },
        ip_block: None,
    }
}

/// Who may reach caliband.
fn ingress_peer(s: &Settings) -> (r: NetworkPolicyPeer)
    ensures
        r.deep_view() == peer_of(s.deep_view()),
{
    let match_labels = if s.ingress_pod_selector.is_empty() {
        None
    } else {
        Some(s.ingress_pod_selector.clone())
    };
    let namespace_selector = match &s.ingress_namespace {
        Some(ns) => {
            let mut labels = StringMap::new();
            labels.insert(NAMESPACE_LABEL.to_string(), ns.clone());
            Some(LabelSelector { match_labels: Some(labels) })
        },
        None => None,
    };
    NetworkPolicyPeer {
        pod_selector: Some(LabelSelector { match_labels }),
        namespace_selector,
        ip_block: None,
    }
}

/// Incoming traffic: the control port and the per-agent stream window.
pub open spec fn ingress_of(s: SettingsView) -> NetworkPolicyIngressRuleView {
    NetworkPolicyIngressRuleView {
        ports: Some(
            seq![
                port_of("TCP"@, s.caliband_port),
                port_range_of("TCP"@, s.agent_port_base, s.agent_port_end),
            ],
        ),
        from: Some(seq![peer_of(s)]),
    }
}

/// Incoming traffic: the control port and the per-agent stream window.
fn ingress_rule(s: &Settings) -> (r: NetworkPolicyIngressRule)
    ensures
        r.deep_view() == ingress_of(s.deep_view()),
{
    let ports = vec![
        np_port("TCP", s.caliband_port),
        np_port_range("TCP", s.agent_port_base, s.agent_port_end),
    ];
    let from = vec![ingress_peer(s)];
    let ghost v = s.deep_view();
    assert(ports.deep_view() =~= ingress_of(v).ports->0);
    assert(from.deep_view() =~= seq![peer_of(v)]);
    NetworkPolicyIngressRule { ports: Some(ports), from: Some(from) }
}

/// Outgoing DNS.
pub open spec fn dns_rule_of() -> NetworkPolicyEgressRuleView {
    NetworkPolicyEgressRuleView {
        ports: Some(seq![port_of("UDP"@, 53), port_of("TCP"@, 53)]),
        to: None,
    }
}

/// All outgoing traffic.
pub open spec fn any_rule_of() -> NetworkPolicyEgressRuleView {
    NetworkPolicyEgressRuleView { ports: None, to: None }
}

/// Outgoing TCP traffic to one block of addresses: to the listed ports, or, without any, to
/// every port.
pub open spec fn allow_rule_of(rule: EgressRuleView) -> NetworkPolicyEgressRuleView {
    NetworkPolicyEgressRuleView {
        ports: if rule.ports.len() == 0 {
            None
        } else {
            Some(rule.ports.map_values(|p: i32| port_of("TCP"@, p)))
        },
        to: Some(
            seq![
                NetworkPolicyPeerView {
                    pod_selector: None,
                    namespace_selector: None,
                    ip_block: Some(IPBlockView { cidr: rule.cidr }),
                },
            ],
        ),
    }
}

/// Outgoing traffic: DNS, and then what the workspace lists, or else everything.
pub open spec fn egress_of(egress: Option<EgressSpecView>) -> Seq<NetworkPolicyEgressRuleView> {
    match egress {
        None => seq![dns_rule_of(), any_rule_of()],
        Some(e) => seq![dns_rule_of()] + e.allow.map_values(|r: EgressRuleView| allow_rule_of(r)),
    }
}

/// Outgoing DNS.
fn dns_rule() -> (r: NetworkPolicyEgressRule)
    ensures
        r.deep_view() == dns_rule_of(),
{
    let ports = vec![np_port("UDP", 53), np_port("TCP", 53)];
    assert(ports.deep_view() =~= dns_rule_of().ports->0);
    NetworkPolicyEgressRule { ports: Some(ports), to: None }
}

/// Outgoing TCP traffic to one block of addresses.
fn allow_rule(rule: &EgressRule) -> (r: NetworkPolicyEgressRule)
    ensures
        r.deep_view() == allow_rule_of(rule.deep_view()),
{
    let to = vec![
        NetworkPolicyPeer {
            pod_selector: None,
            namespace_selector: None,
            ip_block: Some(IPBlock { cidr: rule.cidr.clone() }),
        },
    ];
    assert(to.deep_view() =~= allow_rule_of(rule.deep_view()).to->0);
    if rule.ports.len() == 0 {
        return NetworkPolicyEgressRule { ports: None, to: Some(to) };
    }
    let mut ports: Vec<NetworkPolicyPort> = Vec::new();
    let ghost f = |p: i32| port_of("TCP"@, p);
    let ghost all = rule.ports.deep_view();
    let mut i: usize = 0;
    assert(ports.deep_view() =~= all.take(0).map_values(f));
    while i < rule.ports.len()
        invariant
            i <= rule.ports.len(),
            all == rule.ports.deep_view(),
            f == (|p: i32| port_of("TCP"@, p)),
            ports.deep_view() == all.take(i as int).map_values(f),
        decreases rule.ports.len() - i,
    {
        let ghost before = ports.deep_view();
        ports.push(np_port("TCP", rule.ports[i]));
        assert(ports.deep_view() =~= before.push(port_of("TCP"@, all[i as int])));
        i = i + 1;
        assert(ports.deep_view() =~= all.take(i as int).map_values(f));
    }
    assert(all.take(i as int) =~= all);
    NetworkPolicyEgressRule { ports: Some(ports), to: Some(to) }
}

/// Outgoing traffic: DNS, and then what the workspace lists, or else everything.
fn egress_rules(egress: Option<&EgressSpec>) -> (r: Vec<NetworkPolicyEgressRule>)
    ensures
        r.deep_view() == egress_of(egress.deep_view()),
{
    let mut rules = vec![dns_rule()];
    assert(rules.deep_view() =~= seq![dns_rule_of()]);
    match egress {
        None => {
            rules.push(NetworkPolicyEgressRule { ports: None, to: None });
            assert(rules.deep_view() =~= seq![dns_rule_of(), any_rule_of()]);
        },
        Some(e) => {
            let ghost f = |r: EgressRuleView| allow_rule_of(r);
            let ghost all = e.allow.deep_view();
            let mut i: usize = 0;
            assert(rules.deep_view() =~= seq![dns_rule_of()] + all.take(0).map_values(f));
            while i < e.allow.len()
                invariant
                    i <= e.allow.len(),
                    all == e.allow.deep_view(),
                    f == (|r: EgressRuleView| allow_rule_of(r)),
                    rules.deep_view() == seq![dns_rule_of()] + all.take(i as int).map_values(f),
                decreases e.allow.len() - i,
            {
                let ghost before = rules.deep_view();
                rules.push(allow_rule(&e.allow[i]));
                assert(rules.deep_view() =~= before.push(allow_rule_of(all[i as int])));
                i = i + 1;
                assert(rules.deep_view() =~= seq![dns_rule_of()] + all.take(i as int).map_values(
                    f,
                ));
            }
            assert(all.take(i as int) =~= all);
        },
    }
    rules
}

/// The NetworkPolicy of `t` under a workspace's egress restriction.
pub open spec fn network_policy_of(
    t: CalibanTaskView,
    egress: Option<EgressSpecView>,
    s: SettingsView,
) -> NetworkPolicyView {
    NetworkPolicyView {
        metadata: meta_of(t, t.netpol_name()),
        spec: Some(
            NetworkPolicySpecView {
                pod_selector: Some(LabelSelectorView { match_labels: Some(t.labels()) }),
                policy_types: Some(seq!["Ingress"@, "Egress"@]),
                ingress: Some(seq![ingress_of(s)]),
                egress: Some(egress_of(egress)),
            },
        ),
    }
}

/// Default-deny NetworkPolicy: admits ingress to the caliband ports from the configured peer, DNS,
/// and the egress that the workspace allows. The pod is selected by the labels that its template
/// carries.
pub fn restricted_network_policy(t: &CalibanTask, egress: Option<&EgressSpec>, s: &Settings) -> (r:
    NetworkPolicy)
    ensures
        r.deep_view() == network_policy_of(t.deep_view(), egress.deep_view(), s.deep_view()),
{
    let policy_types = vec!["Ingress".to_string(), "Egress".to_string()];
    assert(policy_types.deep_view() =~= seq!["Ingress"@, "Egress"@]);
    let ingress = vec![ingress_rule(s)];
    assert(ingress.deep_view() =~= seq![ingress_of(s.deep_view())]);
    NetworkPolicy {
        metadata: child_meta(t, netpol_name(t)),
        spec: Some(
            NetworkPolicySpec {
                pod_selector: Some(LabelSelector { match_labels: Some(common_labels(t)) }),
                policy_types: Some(policy_types),
                ingress: Some(ingress),
                egress: Some(egress_rules(egress)),
            },
        ),
    }
}

/// Default-deny NetworkPolicy of a task whose workspace does not restrict egress: DNS, general
/// egress, and ingress to the caliband ports.
pub fn build_network_policy(t: &CalibanTask, s: &Settings) -> (r: NetworkPolicy)
    ensures
        r.deep_view() == network_policy_of(t.deep_view(), None, s.deep_view()),
{
    restricted_network_policy(t, None, s)
}

// ---------------------------------------------------------------------------------------------
// The environment of caliband
// ---------------------------------------------------------------------------------------------

/// The volume that holds the checkouts.
pub const WORKSPACE_VOLUME: &'static str = "workspace";

/// The volume for the ConfigMap with the model router configuration.
pub const ROUTER_CONFIG_VOLUME: &'static str = "router-config";

/// Where the model router configuration is mounted.
pub const ROUTER_CONFIG_MOUNT: &'static str = "/etc/caliban/router";

/// The file that caliban loads: the ConfigMap's key `caliban.toml`, inside the mount.
pub const ROUTER_CONFIG_FILE: &'static str = "/etc/caliban/router/caliban.toml";

/// The volume for the session-plane serving certificate.
pub const TLS_VOLUME: &'static str = "session-tls";

/// Where the session-plane serving certificate is mounted.
pub const TLS_MOUNT: &'static str = "/etc/caliband/tls";

impl CalibanTaskView {
    /// The ConfigMap with the model router configuration, if the task names one.
    pub open spec fn router_config(self) -> Option<Seq<char>> {
        match self.spec.model {
            Some(m) => m.router_config_ref,
            None => None,
        }
    }
}

/// The ConfigMap with the model router configuration, if the task names one.
fn router_config_ref(t: &CalibanTask) -> (r: Option<&str>)
    ensures
        r.deep_view() == t.deep_view().router_config(),
{
    match &t.spec.model {
        Some(m) => text::opt_str(&m.router_config_ref),
        None => None,
    }
}

/// A character of a provider kind, as it stands in the name of a variable.
pub open spec fn env_char(c: char) -> char {
    if c == '-' || c == '.' {
        '_'
    } else {
        text::upper(c)
    }
}

/// The prefix of the variables that caliban reads for a provider kind. Two kinds are irregular;
/// every other follows the convention of the upper-case kind.
pub open spec fn prefix_of(kind: Seq<char>) -> Seq<char> {
    let k = kind.map_values(|c: char| text::lower(c));
    if k == "google"@ || k == "gemini"@ {
        "GEMINI"@
    } else if k == "azure"@ || k == "azure-openai"@ || k == "azure_openai"@ {
        "AZURE_OPENAI"@
    } else {
        kind.map_values(|c: char| env_char(c))
    }
}

/// The env-name prefix caliban reads for a provider kind: the `{PROVIDER}` in
/// `{PROVIDER}_BASE_URL` / `{PROVIDER}_API_KEY`.
///
/// Upper-casing the kind is right for most, but two kinds are irregular on caliban's side: its
/// google provider reads the `GEMINI_*` pair, and its Azure path reads `AZURE_OPENAI_*`.
fn provider_env_prefix(kind: &str) -> (r: String)
    ensures
        r@ == prefix_of(kind@),
{
    let v = text::chars_of(kind);
    let mut k = String::new();
    let mut u = String::new();
    let mut i: usize = 0;
    let ghost lower = |c: char| text::lower(c);
    let ghost upper = |c: char| env_char(c);
    assert(k@ =~= v@.take(0).map_values(lower));
    assert(u@ =~= v@.take(0).map_values(upper));
    while i < v.len()
        invariant
            i <= v.len(),
            lower == (|c: char| text::lower(c)),
            upper == (|c: char| env_char(c)),
            k@ == v@.take(i as int).map_values(lower),
            u@ == v@.take(i as int).map_values(upper),
        decreases v.len() - i,
    {
        let c = v[i];
        k.push(text::to_lower(c));
        if c == '-' || c == '.' {
            u.push('_');
        } else {
            u.push(text::to_upper(c));
        }
        i = i + 1;
        assert(k@ =~= v@.take(i as int).map_values(lower));
        assert(u@ =~= v@.take(i as int).map_values(upper));
    }
    assert(v@.take(i as int) =~= kind@);
    if text::same(k.as_str(), "google") || text::same(k.as_str(), "gemini") {
        "GEMINI".to_string()
    } else if text::same(k.as_str(), "azure") || text::same(k.as_str(), "azure-openai")
        || text::same(k.as_str(), "azure_openai") {
        "AZURE_OPENAI".to_string()
    } else {
        u
    }
}

/// The variables of a resolved provider.
pub open spec fn provider_env_of(rp: ResolvedProviderView) -> Seq<EnvVarView> {
    seq![EnvVarView::plain("CALIBAN_PROVIDER"@, rp.kind)] + base_url_env_of(rp) + api_key_env_of(rp)
}

/// The variable with the provider's endpoint, if it has one of its own.
pub open spec fn base_url_env_of(rp: ResolvedProviderView) -> Seq<EnvVarView> {
    match rp.base_url {
        Some(u) => seq![EnvVarView::plain(prefix_of(rp.kind) + "_BASE_URL"@, u)],
        None => Seq::empty(),
    }
}

/// The variable with the provider's key, if it needs one: filled from its Secret.
pub open spec fn api_key_env_of(rp: ResolvedProviderView) -> Seq<EnvVarView> {
    match rp.credentials_ref {
        Some(c) => seq![
            EnvVarView::from_secret(prefix_of(rp.kind) + "_API_KEY"@, c.secret_name, c.key),
        ],
        None => Seq::empty(),
    }
}

/// Projects a resolved provider to caliband container env. Credentials reach the pod by reference
/// to their Secret: the value is never inlined.
///
/// Base URL and API key are projected under provider-native names, the only ones caliban reads.
/// The model is not projected at all: it reaches the worker another way. `CALIBAN_PROVIDER` does
/// not select a provider either; it is the documented input to a user-configured helper.
pub fn provider_env(rp: &ResolvedProvider) -> (r: Vec<EnvVar>)
    ensures
        r.deep_view() == provider_env_of(rp.deep_view()),
{
    let ghost v = rp.deep_view();
    let prefix = provider_env_prefix(rp.kind.as_str());
    let mut e = vec![env::plain("CALIBAN_PROVIDER", rp.kind.as_str())];
    let ghost e0 = seq![EnvVarView::plain("CALIBAN_PROVIDER"@, v.kind)];
    assert(e.deep_view() =~= e0);
    if let Some(u) = &rp.base_url {
        let name = prefix.clone().concat("_BASE_URL");
        e.push(env::plain(name.as_str(), u.as_str()));
        assert(e.deep_view() =~= e0.push(EnvVarView::plain(name@, u@)));
    }
    let ghost e1 = e0 + base_url_env_of(v);
    assert(e.deep_view() =~= e1);
    if let Some(c) = &rp.credentials_ref {
        let name = prefix.concat("_API_KEY");
        e.push(env::from_secret(name.as_str(), c.secret_name.as_str(), c.key.as_str()));
        assert(e.deep_view() =~= e1.push(
            EnvVarView::from_secret(name@, c.secret_name@, c.key@),
        ));
    }
    assert(e.deep_view() =~= e1 + api_key_env_of(v));
    e
}

/// The variables of the workspace.
pub open spec fn workspace_env_of(entries: Seq<EnvEntryView>) -> Seq<EnvVarView> {
    entries.map_values(|e: EnvEntryView| EnvVarView::plain(e.name, e.value))
}

/// The variable that points caliban at its router configuration, if there is one.
pub open spec fn router_env_of(t: CalibanTaskView) -> Seq<EnvVarView> {
    if t.router_config() is Some {
        seq![EnvVarView::plain("CALIBAN_ROUTER_CONFIG"@, ROUTER_CONFIG_FILE@)]
    } else {
        Seq::empty()
    }
}

/// The variables of caliband: storage, router, provider, workspace, and last the bearer token of
/// the session plane.
pub open spec fn caliband_env_of(
    t: CalibanTaskView,
    rw: ResolvedWorkspaceView,
    s: SettingsView,
) -> Seq<EnvVarView> {
    storage::storage_env_of(t.spec.state) + router_env_of(t) + provider_env_of(rw.provider)
        + workspace_env_of(rw.env) + seq![
        EnvVarView::from_secret(
            "CALIBAN_DAEMON_TOKEN"@,
            s.session_token_secret,
            s.session_token_key,
        ),
    ]
}

/// The variables of caliband.
fn caliband_env(t: &CalibanTask, rw: &ResolvedWorkspace, s: &Settings) -> (r: Vec<EnvVar>)
    ensures
        r.deep_view() == caliband_env_of(t.deep_view(), rw.deep_view(), s.deep_view()),
{
    let ghost tv = t.deep_view();
    let ghost rv = rw.deep_view();
    let mut e = storage::storage_env(t.spec.state.as_ref());
    let ghost e0 = storage::storage_env_of(tv.spec.state);
    if router_config_ref(t).is_some() {
        e.push(env::plain("CALIBAN_ROUTER_CONFIG", ROUTER_CONFIG_FILE));
        assert(e.deep_view() =~= e0.push(
            EnvVarView::plain("CALIBAN_ROUTER_CONFIG"@, ROUTER_CONFIG_FILE@),
        ));
    }
    let ghost e1 = e0 + router_env_of(tv);
    assert(e.deep_view() =~= e1);
    let mut p = provider_env(&rw.provider);
    let ghost pv = p.deep_view();
    let ghost before = e;
    let ghost added = p;
    e.append(&mut p);
    assert(e@ == before@ + added@);
    let ghost e2 = e1 + pv;
    assert(e.deep_view() =~= e2) by {
        assert forall|i: int| 0 <= i < e@.len() implies e.deep_view()[i] == #[trigger] e2[i] by {
            if i < before@.len() {
                assert(e@[i] == before@[i]);
                assert(before.deep_view()[i] == before@[i].deep_view());
            } else {
                assert(e@[i] == added@[i - before@.len()]);
                assert(added.deep_view()[i - before@.len()] == added@[i
                    - before@.len()].deep_view());
            }
        }
    }
    let ghost f = |x: EnvEntryView| EnvVarView::plain(x.name, x.value);
    let ghost all = rw.env.deep_view();
    let mut i: usize = 0;
    assert(e.deep_view() =~= e2 + all.take(0).map_values(f));
    while i < rw.env.len()
        invariant
            i <= rw.env.len(),
            all == rw.env.deep_view(),
            f == (|x: EnvEntryView| EnvVarView::plain(x.name, x.value)),
            e.deep_view() == e2 + all.take(i as int).map_values(f),
        decreases rw.env.len() - i,
    {
        let ghost before = e.deep_view();
        e.push(env::plain(rw.env[i].name.as_str(), rw.env[i].value.as_str()));
        assert(e.deep_view() =~= before.push(f(all[i as int])));
        i = i + 1;
        assert(e.deep_view() =~= e2 + all.take(i as int).map_values(f));
    }
    assert(all.take(i as int) =~= all);
    let ghost e3 = e2 + workspace_env_of(rv.env);
    assert(e.deep_view() =~= e3);
    e.push(
        env::from_secret(
            "CALIBAN_DAEMON_TOKEN",
            s.session_token_secret.as_str(),
            s.session_token_key.as_str(),
        ),
    );
    assert(e.deep_view() =~= e3.push(
        EnvVarView::from_secret(
            "CALIBAN_DAEMON_TOKEN"@,
            s.session_token_secret@,
            s.session_token_key@,
        ),
    ));
    assert(e.deep_view() =~= caliband_env_of(tv, rv, s.deep_view()));
    e
}

// ---------------------------------------------------------------------------------------------
// The clone init container
// ---------------------------------------------------------------------------------------------

/// The script line for one source: clone it unless it is a checkout already.
pub open spec fn clone_line(src: SourceView) -> Seq<char> {
    "if [ ! -d "@ + shell::squote(src.path + "/.git"@)
        + " ]; then git clone --depth 1 --branch "@ + shell::squote(src.git_ref) + " "@
        + shell::squote(src.repo) + " "@ + shell::squote(src.path) + "; fi\n"@
}

/// The clone script: stop at the first failure, and then one line for each source.
pub open spec fn script_of(sources: Seq<SourceView>) -> Seq<char>
    decreases sources.len(),
{
    if sources.len() == 0 {
        "set -eu\n"@
    } else {
        script_of(sources.drop_last()) + clone_line(sources.last())
    }
}

/// Builds the idempotent clone script for the init container: for each workspace source, clone
/// `repo` at its ref into `path` unless it is already a git checkout (so that restarts over the
/// persistent volume do not refetch).
fn clone_script(rw: &ResolvedWorkspace) -> (r: String)
    ensures
        r@ == script_of(rw.deep_view().sources),
{
    let mut s = "set -eu\n".to_string();
    let ghost all = rw.sources.deep_view();
    let mut i: usize = 0;
    while i < rw.sources.len()
        invariant
            i <= rw.sources.len(),
            all == rw.sources.deep_view(),
            s@ == script_of(all.take(i as int)),
        decreases rw.sources.len() - i,
    {
        let src = &rw.sources[i];
        let git = src.path.clone().concat("/.git");
        let line = "if [ ! -d ".to_string().concat(shell::sh_squote(git.as_str()).as_str()).concat(
            " ]; then git clone --depth 1 --branch ",
        ).concat(shell::sh_squote(src.git_ref.as_str()).as_str()).concat(" ").concat(
            shell::sh_squote(src.repo.as_str()).as_str(),
        ).concat(" ").concat(shell::sh_squote(src.path.as_str()).as_str()).concat("; fi\n");
        assert(line@ == clone_line(all[i as int]));
        s.append(line.as_str());
        assert(all.take(i + 1).drop_last() =~= all.take(i as int));
        i = i + 1;
    }
    assert(all.take(i as int) =~= all);
    s
}

/// The quantities of CPU and memory, if there is either.
pub open spec fn quantities_of(cpu: Option<Seq<char>>, memory: Option<Seq<char>>) -> Option<
    Map<Seq<char>, Seq<char>>,
> {
    match (cpu, memory) {
        (None, None) => None,
        (Some(c), None) => Some(map!["cpu"@ => c]),
        (None, Some(m)) => Some(map!["memory"@ => m]),
        (Some(c), Some(m)) => Some(map!["cpu"@ => c, "memory"@ => m]),
    }
}

/// The quantities of CPU and memory, if there is either.
fn quantities(cpu: &Option<String>, memory: &Option<String>) -> (r: Option<StringMap>)
    ensures
        r.deep_view() == quantities_of(cpu.deep_view(), memory.deep_view()),
{
    if cpu.is_none() && memory.is_none() {
        return None;
    }
    let mut m = StringMap::new();
    if let Some(c) = cpu {
        m.insert("cpu".to_string(), c.clone());
    }
    if let Some(q) = memory {
        m.insert("memory".to_string(), q.clone());
    }
    assert(m.deep_view() =~= quantities_of(cpu.deep_view(), memory.deep_view())->0);
    Some(m)
}

/// CPU and memory of the sandbox containers, if any is configured.
pub open spec fn resources_of(s: SettingsView) -> Option<ResourceRequirementsView> {
    let requests = quantities_of(s.caliband_cpu_request, s.caliband_memory_request);
    let limits = quantities_of(s.caliband_cpu_limit, s.caliband_memory_limit);
    if requests is Some || limits is Some {
        Some(ResourceRequirementsView { requests, limits })
    } else {
        None
    }
}

/// CPU/memory requests and limits for both sandbox containers. `None` when nothing is configured,
/// so the pod carries no empty `resources` block.
///
/// The clone init container gets the same values: a pod's effective request is the maximum of any
/// init container and the sum of app containers, so this adds nothing to scheduling.
fn sandbox_resources(s: &Settings) -> (r: Option<ResourceRequirements>)
    ensures
        r.deep_view() == resources_of(s.deep_view()),
{
    let requests = quantities(&s.caliband_cpu_request, &s.caliband_memory_request);
    let limits = quantities(&s.caliband_cpu_limit, &s.caliband_memory_limit);
    if requests.is_some() || limits.is_some() {
        Some(ResourceRequirements { requests, limits })
    } else {
        None
    }
}

/// The checkouts, mounted at the workspace root.
pub open spec fn workspace_mount_of(s: SettingsView) -> VolumeMountView {
    VolumeMountView { name: WORKSPACE_VOLUME@, mount_path: s.workspace_root, read_only: None }
}

/// The checkouts, mounted at the workspace root.
fn workspace_mount(s: &Settings) -> (r: VolumeMount)
    ensures
        r.deep_view() == workspace_mount_of(s.deep_view()),
{
    VolumeMount {
        name: WORKSPACE_VOLUME.to_string(),
        mount_path: s.workspace_root.clone(),
        read_only: None,
    }
}

/// The container that clones the workspace's sources.
pub open spec fn clone_container_of(
    rw: ResolvedWorkspaceView,
    s: SettingsView,
) -> ContainerView {
    ContainerView {
        name: "clone-workspace"@,
        image: Some(s.git_image),
        command: Some(seq!["/bin/sh"@, "-c"@, script_of(rw.sources)]),
        args: None,
        env: None,
        ports: None,
        volume_mounts: Some(seq![workspace_mount_of(s)]),
        resources: resources_of(s),
        readiness_probe: None,
        startup_probe: None,
        liveness_probe: None,
    }
}

/// The init containers: one that clones the sources, if there are any.
pub open spec fn init_containers_of(
    rw: ResolvedWorkspaceView,
    s: SettingsView,
) -> Option<Seq<ContainerView>> {
    if rw.sources.len() == 0 {
        None
    } else {
        Some(seq![clone_container_of(rw, s)])
    }
}

/// The git-clone init container that populates the workspace volume from the resolved workspace's
/// sources, if any are configured.
fn clone_init_container(rw: &ResolvedWorkspace, s: &Settings) -> (r: Option<Container>)
    ensures
        r.deep_view() == (if rw.deep_view().sources.len() == 0 {
            None
        } else {
            Some(clone_container_of(rw.deep_view(), s.deep_view()))
        }),
{
    if rw.sources.len() == 0 {
        return None;
    }
    let script = clone_script(rw);
    let ghost sv = script@;
    let command = vec!["/bin/sh".to_string(), "-c".to_string(), script];
    assert(command.deep_view() =~= seq!["/bin/sh"@, "-c"@, sv]);
    let mounts = vec![workspace_mount(s)];
    assert(mounts.deep_view() =~= seq![workspace_mount_of(s.deep_view())]);
    Some(
        Container {
            name: "clone-workspace".to_string(),
            image: Some(s.git_image.clone()),
            command: Some(command),
            args: None,
            env: None,
            ports: None,
            volume_mounts: Some(mounts),
            resources: sandbox_resources(s),
            readiness_probe: None,
            startup_probe: None,
            liveness_probe: None,
        },
    )
}

// ---------------------------------------------------------------------------------------------
// The Sandbox
// ---------------------------------------------------------------------------------------------

/// A TCP probe on caliband's control port.
pub open spec fn probe_of(s: SettingsView, period: i32, failures: i32) -> ProbeView {
    ProbeView {
        tcp_socket: Some(TCPSocketActionView { port: s.caliband_port }),
        period_seconds: Some(period),
        failure_threshold: Some(failures),
    }
}

/// A TCP probe on caliband's control port.
fn control_port_probe(s: &Settings, period_seconds: i32, failure_threshold: i32) -> (r: Probe)
    ensures
        r.deep_view() == probe_of(s.deep_view(), period_seconds, failure_threshold),
{
    Probe {
        tcp_socket: Some(TCPSocketAction { port: s.caliband_port }),
        period_seconds: Some(period_seconds),
        failure_threshold: Some(failure_threshold),
    }
}

/// The volume claim for the checkouts, in the cluster's default storage class.
pub open spec fn claim_of(s: SettingsView) -> VolumeClaimTemplateView {
    VolumeClaimTemplateView {
        metadata: ObjectMetaView {
            name: Some(WORKSPACE_VOLUME@),
            generate_name: None,
            namespace: None,
            uid: None,
            generation: None,
            labels: None,
            owner_references: None,
        },
        spec: Some(
            PersistentVolumeClaimSpecView {
                access_modes: Some(seq!["ReadWriteOnce"@]),
                resources: Some(
                    VolumeResourceRequirementsView {
                        requests: Some(map!["storage"@ => s.workspace_storage]),
                    },
                ),
            },
        ),
    }
}

/// The volume claim for the checkouts, in the cluster's default storage class.
fn workspace_pvc(s: &Settings) -> (r: VolumeClaimTemplate)
    ensures
        r.deep_view() == claim_of(s.deep_view()),
{
    let access_modes = vec!["ReadWriteOnce".to_string()];
    assert(access_modes.deep_view() =~= seq!["ReadWriteOnce"@]);
    let mut requests = StringMap::new();
    requests.insert("storage".to_string(), s.workspace_storage.clone());
    assert(requests.deep_view() =~= map!["storage"@ => s.workspace_storage@]);
    VolumeClaimTemplate {
        metadata: ObjectMeta::named(WORKSPACE_VOLUME),
        spec: Some(
            PersistentVolumeClaimSpec {
                access_modes: Some(access_modes),
                resources: Some(VolumeResourceRequirements { requests: Some(requests) }),
            },
        ),
    }
}

/// The command line of caliband.
pub open spec fn args_of(t: CalibanTaskView, s: SettingsView) -> Seq<Seq<char>> {
    seq![
        "--workspace-root"@,
        s.workspace_root,
        "--listen"@,
        "0.0.0.0:"@ + text::decimal_int(s.caliband_port as int),
        "--advertise-host"@,
        config::advertise_host(t, s),
        "--agent-port-base"@,
        text::decimal_int(s.agent_port_base as int),
        "--tls-cert"@,
        "/etc/caliband/tls/tls.crt"@,
        "--tls-key"@,
        "/etc/caliband/tls/tls.key"@,
        "--tls-ca"@,
        "/etc/caliband/tls/ca.crt"@,
        "--tls-server-name"@,
        s.session_server_name,
    ]
}

/// The command line of caliband.
///
/// It advertises the pod's routable name rather than its bind address, so that the per-agent
/// stream endpoints it hands out can be reached. The per-agent port base is pinned so that it
/// stays locked to the window the NetworkPolicy opens. The trust anchor is handed down to the
/// workers, together with the name that it must vouch for: the serving certificate's own name,
/// not the advertised one.
fn caliband_args(t: &CalibanTask, s: &Settings) -> (r: Vec<String>)
    ensures
        r.deep_view() == args_of(t.deep_view(), s.deep_view()),
{
    let listen = "0.0.0.0:".to_string().concat(text::decimal_of(s.caliband_port as i64).as_str());
    let host = caliband_advertise_host(t, s);
    let base = text::decimal_of(s.agent_port_base as i64);
    let r = vec![
        "--workspace-root".to_string(),
        s.workspace_root.clone(),
        "--listen".to_string(),
        listen,
        "--advertise-host".to_string(),
        host,
        "--agent-port-base".to_string(),
        base,
        "--tls-cert".to_string(),
        "/etc/caliband/tls/tls.crt".to_string(),
        "--tls-key".to_string(),
        "/etc/caliband/tls/tls.key".to_string(),
        "--tls-ca".to_string(),
        "/etc/caliband/tls/ca.crt".to_string(),
        "--tls-server-name".to_string(),
        s.session_server_name.clone(),
    ];
    assert(r.deep_view() =~= args_of(t.deep_view(), s.deep_view()));
    r
}

/// What is mounted into caliband: the checkouts, the serving certificate, and the router
/// configuration, if there is one.
pub open spec fn mounts_of(t: CalibanTaskView, s: SettingsView) -> Seq<VolumeMountView> {
    seq![
        workspace_mount_of(s),
        VolumeMountView { name: TLS_VOLUME@, mount_path: TLS_MOUNT@, read_only: Some(true) },
    ] + (if t.router_config() is Some {
        seq![
            VolumeMountView {
                name: ROUTER_CONFIG_VOLUME@,
                mount_path: ROUTER_CONFIG_MOUNT@,
                read_only: Some(true),
            },
        ]
    } else {
        Seq::empty()
    })
}

/// What is mounted into caliband.
fn caliband_mounts(t: &CalibanTask, s: &Settings) -> (r: Vec<VolumeMount>)
    ensures
        r.deep_view() == mounts_of(t.deep_view(), s.deep_view()),
{
    let mut m = vec![
        workspace_mount(s),
        VolumeMount {
            name: TLS_VOLUME.to_string(),
            mount_path: TLS_MOUNT.to_string(),
            read_only: Some(true),
        },
    ];
    if router_config_ref(t).is_some() {
        m.push(
            VolumeMount {
                name: ROUTER_CONFIG_VOLUME.to_string(),
                mount_path: ROUTER_CONFIG_MOUNT.to_string(),
                read_only: Some(true),
            },
        );
    }
    assert(m.deep_view() =~= mounts_of(t.deep_view(), s.deep_view()));
    m
}

/// The volumes of the pod: the serving certificate, and the router configuration, if there is
/// one. The checkouts come from the volume claim.
pub open spec fn volumes_of(t: CalibanTaskView, s: SettingsView) -> Seq<VolumeView> {
    seq![
        VolumeView {
            name: TLS_VOLUME@,
            secret: Some(SecretVolumeSourceView { secret_name: Some(s.session_tls_secret) }),
            config_map: None,
        },
    ] + (match t.router_config() {
        Some(cm) => seq![
            VolumeView {
                name: ROUTER_CONFIG_VOLUME@,
                secret: None,
                config_map: Some(ConfigMapVolumeSourceView { name: cm }),
            },
        ],
        None => Seq::empty(),
    })
}

/// The volumes of the pod.
fn pod_volumes(t: &CalibanTask, s: &Settings) -> (r: Vec<Volume>)
    ensures
        r.deep_view() == volumes_of(t.deep_view(), s.deep_view()),
{
    let mut v = vec![
        Volume {
            name: TLS_VOLUME.to_string(),
            secret: Some(SecretVolumeSource { secret_name: Some(s.session_tls_secret.clone()) }),
            config_map: None,
        },
    ];
    if let Some(cm) = router_config_ref(t) {
        v.push(
            Volume {
                name: ROUTER_CONFIG_VOLUME.to_string(),
                secret: None,
                config_map: Some(ConfigMapVolumeSource { name: cm.to_string() }),
            },
        );
    }
    assert(v.deep_view() =~= volumes_of(t.deep_view(), s.deep_view()));
    v
}

/// The container that runs caliband.
pub open spec fn caliband_container_of(
    t: CalibanTaskView,
    rw: ResolvedWorkspaceView,
    s: SettingsView,
) -> ContainerView {
    ContainerView {
        name: "caliband"@,
        image: Some(s.caliband_image),
        command: None,
        args: Some(args_of(t, s)),
        env: Some(caliband_env_of(t, rw, s)),
        ports: Some(
            seq![ContainerPortView { container_port: s.caliband_port, name: Some("caliband"@) }],
        ),
        volume_mounts: Some(mounts_of(t, s)),
        resources: resources_of(s),
        readiness_probe: Some(probe_of(s, 5, 3)),
        startup_probe: Some(probe_of(s, 2, 60)),
        liveness_probe: None,
    }
}

/// The container that runs caliband.
///
/// It is probed on the control port, so that the pod only reports ready once caliband has bound
/// it. Startup tolerates a slow first bind without the readiness probe flapping. There is no
/// liveness probe: restarting caliband kills every agent it runs.
fn caliband_container(t: &CalibanTask, rw: &ResolvedWorkspace, s: &Settings) -> (r: Container)
    ensures
        r.deep_view() == caliband_container_of(t.deep_view(), rw.deep_view(), s.deep_view()),
{
    let ports = vec![
        ContainerPort { container_port: s.caliband_port, name: Some("caliband".to_string()) },
    ];
    assert(ports.deep_view() =~= seq![
        ContainerPortView { container_port: s.caliband_port, name: Some("caliband"@) },
    ]);
    Container {
        name: "caliband".to_string(),
        image: Some(s.caliband_image.clone()),
        command: None,
        args: Some(caliband_args(t, s)),
        env: Some(caliband_env(t, rw, s)),
        ports: Some(ports),
        volume_mounts: Some(caliband_mounts(t, s)),
        resources: sandbox_resources(s),
        readiness_probe: Some(control_port_probe(s, 5, 3)),
        startup_probe: Some(control_port_probe(s, 2, 60)),
        liveness_probe: None,
    }
}

/// The runtime class that an isolation block asks for.
pub open spec fn class_of(isolation: Option<IsolationSpecView>) -> Option<Seq<char>> {
    match isolation {
        Some(i) => i.runtime_class,
        None => None,
    }
}

/// The runtime class of the pod: the task's own, or else the workspace's.
pub open spec fn runtime_class_of(t: CalibanTaskView, rw: ResolvedWorkspaceView) -> Option<
    Seq<char>,
> {
    match class_of(t.spec.isolation) {
        Some(c) => Some(c),
        None => class_of(rw.isolation),
    }
}

/// The runtime class that an isolation block asks for.
fn isolation_class(isolation: &Option<IsolationSpec>) -> (r: Option<String>)
    ensures
        r.deep_view() == class_of(isolation.deep_view()),
{
    match isolation {
        Some(i) => i.runtime_class.clone(),
        None => None,
    }
}

/// The pod of a task.
pub open spec fn pod_of(
    t: CalibanTaskView,
    rw: ResolvedWorkspaceView,
    s: SettingsView,
) -> PodSpecView {
    PodSpecView {
        containers: seq![caliband_container_of(t, rw, s)],
        init_containers: init_containers_of(rw, s),
        runtime_class_name: runtime_class_of(t, rw),
        service_account_name: Some(t.sa_name()),
        automount_service_account_token: Some(false),
        volumes: Some(volumes_of(t, s)),
    }
}

/// The pod of a task. The task's own runtime class takes precedence over the workspace default.
fn pod_spec(t: &CalibanTask, rw: &ResolvedWorkspace, s: &Settings) -> (r: PodSpec)
    ensures
        r.deep_view() == pod_of(t.deep_view(), rw.deep_view(), s.deep_view()),
{
    let containers = vec![caliband_container(t, rw, s)];
    assert(containers.deep_view() =~= seq![
        caliband_container_of(t.deep_view(), rw.deep_view(), s.deep_view()),
    ]);
    let init_containers = match clone_init_container(rw, s) {
        Some(c) => {
            let ghost cv = c.deep_view();
            let v = vec![c];
            assert(v.deep_view() =~= seq![cv]);
            Some(v)
        },
        None => None,
    };
    let runtime_class_name = match isolation_class(&t.spec.isolation) {
        Some(c) => Some(c),
        None => isolation_class(&rw.isolation),
    };
    PodSpec {
        containers,
        init_containers,
        runtime_class_name,
        service_account_name: Some(sa_name(t)),
        automount_service_account_token: Some(false),
        volumes: Some(pod_volumes(t, s)),
    }
}

/// The Sandbox of a task.
pub open spec fn sandbox_of(
    t: CalibanTaskView,
    rw: ResolvedWorkspaceView,
    s: SettingsView,
) -> SandboxView {
    SandboxView {
        metadata: meta_of(t, t.sandbox_name()),
        spec: SandboxSpecView {
            pod_template: PodTemplateSpecView {
                metadata: Some(
                    ObjectMetaView {
                        name: None,
                        generate_name: None,
                        namespace: None,
                        uid: None,
                        generation: None,
                        labels: Some(t.labels()),
                        owner_references: None,
                    },
                ),
                spec: Some(pod_of(t, rw, s)),
            },
            service: Some(true),
            operating_mode: Some("Running"@),
            volume_claim_templates: Some(seq![claim_of(s)]),
        },
        status: None,
    }
}

/// Maps a `CalibanTask` and its resolved workspace to the backing agent-sandbox `Sandbox`.
pub fn build_sandbox(t: &CalibanTask, rw: &ResolvedWorkspace, s: &Settings) -> (r: Sandbox)
    ensures
        r.deep_view() == sandbox_of(t.deep_view(), rw.deep_view(), s.deep_view()),
{
    let claims = vec![workspace_pvc(s)];
    assert(claims.deep_view() =~= seq![claim_of(s.deep_view())]);
    Sandbox {
        metadata: child_meta(t, sandbox_name(t)),
        spec: SandboxSpec {
            pod_template: PodTemplateSpec {
                metadata: Some(
                    ObjectMeta {
                        name: None,
                        generate_name: None,
                        namespace: None,
                        uid: None,
                        generation: None,
                        labels: Some(common_labels(t)),
                        owner_references: None,
                    },
                ),
                spec: Some(pod_spec(t, rw, s)),
            },
            service: Some(true),
            operating_mode: Some("Running".to_string()),
            volume_claim_templates: Some(claims),
        },
        status: None,
    }
}

/// The child objects a single reconcile applies.
#[derive(Clone, Debug)]
pub struct ReconcilePlan {
    /// The task's dedicated, token-less ServiceAccount.
    pub service_account: ServiceAccount,
    /// The default-deny NetworkPolicy scoping the sandbox pod's traffic.
    pub network_policy: NetworkPolicy,
    /// The backing agent-sandbox Sandbox.
    pub sandbox: Sandbox,
}

/// What a [`ReconcilePlan`] holds.
#[verifier::ext_equal]
pub struct ReconcilePlanView {
    pub service_account: ServiceAccountView,
    pub network_policy: NetworkPolicyView,
    pub sandbox: SandboxView,
}

impl DeepView for ReconcilePlan {
    type V = ReconcilePlanView;

    open spec fn deep_view(&self) -> ReconcilePlanView {
        ReconcilePlanView {
            service_account: self.service_account.deep_view(),
            network_policy: self.network_policy.deep_view(),
            sandbox: self.sandbox.deep_view(),
        }
    }
}

/// Every child object of a task.
pub open spec fn plan_of(
    t: CalibanTaskView,
    rw: ResolvedWorkspaceView,
    s: SettingsView,
) -> ReconcilePlanView {
    ReconcilePlanView {
        service_account: service_account_of(t),
        network_policy: network_policy_of(t, rw.egress, s),
        sandbox: sandbox_of(t, rw, s),
    }
}

/// Assembles every child object for a task.
pub fn plan(t: &CalibanTask, rw: &ResolvedWorkspace, s: &Settings) -> (r: ReconcilePlan)
    ensures
        r.deep_view() == plan_of(t.deep_view(), rw.deep_view(), s.deep_view()),
{
    ReconcilePlan {
        service_account: build_service_account(t),
        network_policy: restricted_network_policy(t, rw.egress.as_ref(), s),
        sandbox: build_sandbox(t, rw, s),
    }
}

// ---------------------------------------------------------------------------------------------
// Laws
// ---------------------------------------------------------------------------------------------

/// Every child carries the task's labels, sits in the task's namespace, and is owned by the task
/// alone, so that it goes when the task goes; the three have the names that the task's name gives.
pub proof fn law_children_belong_to_the_task(
    t: CalibanTaskView,
    rw: ResolvedWorkspaceView,
    s: SettingsView,
)
    ensures
        ({
            let p = plan_of(t, rw, s);
            &&& p.service_account.metadata == meta_of(t, t.sa_name())
            &&& p.network_policy.metadata == meta_of(t, t.netpol_name())
            &&& p.sandbox.metadata == meta_of(t, t.sandbox_name())
        }),
{
}

/// The network policy governs the sandbox pod: it selects exactly the labels of the pod template,
/// and only admitted traffic passes in either direction.
pub proof fn law_policy_governs_the_pod(
    t: CalibanTaskView,
    rw: ResolvedWorkspaceView,
    s: SettingsView,
)
    ensures
        ({
            let p = plan_of(t, rw, s);
            let policy = p.network_policy.spec->0;
            &&& policy.pod_selector->0.match_labels
                == p.sandbox.spec.pod_template.metadata->0.labels
            &&& policy.policy_types == Some(seq!["Ingress"@, "Egress"@])
            &&& policy.ingress is Some
            &&& policy.egress is Some
        }),
{
}

/// The pod runs under the task's own ServiceAccount, and neither of them mounts an API token.
pub proof fn law_pod_has_no_api_token(
    t: CalibanTaskView,
    rw: ResolvedWorkspaceView,
    s: SettingsView,
)
    ensures
        ({
            let p = plan_of(t, rw, s);
            let pod = p.sandbox.spec.pod_template.spec->0;
            &&& pod.service_account_name == p.service_account.metadata.name
            &&& pod.automount_service_account_token == Some(false)
            &&& p.service_account.automount_service_account_token == Some(false)
        }),
{
}

/// A task has no say in what its pod may reach: under one workspace and one configuration, every
/// task gets the same egress rules.
pub proof fn law_egress_is_the_workspaces(
    t: CalibanTaskView,
    u: CalibanTaskView,
    rw: ResolvedWorkspaceView,
    s: SettingsView,
)
    ensures
        plan_of(t, rw, s).network_policy.spec->0.egress == plan_of(
            u,
            rw,
            s,
        ).network_policy.spec->0.egress,
{
}

/// Under an egress restriction a pod reaches port 53 and the listed blocks, and nothing else:
/// the first rule admits DNS only, and each further rule is that of one listed block.
pub proof fn law_restricted_egress(e: EgressSpecView)
    ensures
        egress_of(Some(e)).len() == e.allow.len() + 1,
        egress_of(Some(e))[0] == dns_rule_of(),
        forall|i: int|
            0 <= i < e.allow.len() ==> {
                let rule = #[trigger] egress_of(Some(e))[i + 1];
                let peer = rule.to->0[0];
                &&& rule.to is Some
                &&& rule.to->0.len() == 1
                &&& peer.ip_block == Some(IPBlockView { cidr: e.allow[i].cidr })
                &&& peer.pod_selector is None
                &&& peer.namespace_selector is None
                &&& rule.ports is None <==> e.allow[i].ports.len() == 0
                &&& rule.ports is Some ==> rule.ports->0.len() == e.allow[i].ports.len()
            },
{
}

/// The ports agree: caliband listens, is probed and is admitted on one control port, and draws
/// its per-agent streams from the start of the window that the policy opens.
pub proof fn law_ports_agree(t: CalibanTaskView, rw: ResolvedWorkspaceView, s: SettingsView)
    ensures
        ({
            let p = plan_of(t, rw, s);
            let c = p.sandbox.spec.pod_template.spec->0.containers[0];
            let admitted = p.network_policy.spec->0.ingress->0[0].ports->0;
            &&& c.ports->0[0].container_port == s.caliband_port
            &&& c.readiness_probe->0.tcp_socket->0.port == s.caliband_port
            &&& c.startup_probe->0.tcp_socket->0.port == s.caliband_port
            &&& c.args->0[3] == "0.0.0.0:"@ + text::decimal_int(s.caliband_port as int)
            &&& c.args->0[7] == text::decimal_int(s.agent_port_base as int)
            &&& admitted.len() == 2
            &&& admitted[0].port == Some(s.caliband_port) && admitted[0].end_port is None
            &&& admitted[1].port == Some(s.agent_port_base) && admitted[1].end_port == Some(
                s.agent_port_end,
            )
        }),
{
}

/// No variable of caliband has both a value in the pod spec and a source elsewhere, or neither.
pub proof fn law_variables_are_single_sourced(
    t: CalibanTaskView,
    rw: ResolvedWorkspaceView,
    s: SettingsView,
)
    ensures
        forall|i: int|
            0 <= i < caliband_env_of(t, rw, s).len() ==> (#[trigger] caliband_env_of(
                t,
                rw,
                s,
            )[i]).is_single_sourced(),
{
    let e = caliband_env_of(t, rw, s);
    let storage = storage::storage_env_of(t.spec.state);
    let router = router_env_of(t);
    let provider = provider_env_of(rw.provider);
    let workspace = workspace_env_of(rw.env);
    if let Some(state) = t.spec.state {
        storage::law_token_only_by_reference(state);
    }
    assert forall|i: int| 0 <= i < e.len() implies (#[trigger] e[i]).is_single_sourced() by {
        let n1 = storage.len() as int;
        let n2 = n1 + router.len();
        let n3 = n2 + provider.len();
        let n4 = n3 + workspace.len();
        if i < n1 {
            assert(e[i] == storage[i]);
        } else if i < n2 {
            assert(e[i] == router[i - n1]);
        } else if i < n3 {
            assert(e[i] == provider[i - n2]);
        } else if i < n4 {
            assert(e[i] == workspace[i - n3]);
        }
    }
}

/// Credentials reach the pod by reference: a provider with a credential Secret puts exactly one
/// variable in the pod that is filled from it, and a keyless provider puts none.
pub proof fn law_credentials_only_by_reference(rp: ResolvedProviderView)
    ensures
        forall|i: int|
            0 <= i < provider_env_of(rp).len() && (#[trigger] provider_env_of(
                rp,
            )[i]).value_from is Some ==> rp.credentials_ref is Some && i == provider_env_of(
                rp,
            ).len() - 1,
        rp.credentials_ref matches Some(c) ==> provider_env_of(rp).last()
            == EnvVarView::from_secret(prefix_of(rp.kind) + "_API_KEY"@, c.secret_name, c.key),
{
}

/// The session token reaches caliband by reference to its Secret.
pub proof fn law_session_token_only_by_reference(
    t: CalibanTaskView,
    rw: ResolvedWorkspaceView,
    s: SettingsView,
)
    ensures
        caliband_env_of(t, rw, s).last() == EnvVarView::from_secret(
            "CALIBAN_DAEMON_TOKEN"@,
            s.session_token_secret,
            s.session_token_key,
        ),
{
}

/// Whatever is mounted into a container of the pod is there to be mounted: each mount names a
/// volume of the pod or its volume claim.
pub proof fn law_mounts_have_volumes(
    t: CalibanTaskView,
    rw: ResolvedWorkspaceView,
    s: SettingsView,
)
    ensures
        forall|i: int|
            0 <= i < mounts_of(t, s).len() ==> {
                let m = #[trigger] mounts_of(t, s)[i];
                ||| claim_of(s).metadata.name == Some(m.name)
                ||| exists|j: int|
                    0 <= j < volumes_of(t, s).len() && (#[trigger] volumes_of(t, s)[j]).name
                        == m.name
            },
        clone_container_of(rw, s).volume_mounts->0 =~= seq![workspace_mount_of(s)],
        claim_of(s).metadata.name == Some(workspace_mount_of(s).name),
{
    assert(volumes_of(t, s)[0].name == TLS_VOLUME@);
    if t.router_config() is Some {
        assert(volumes_of(t, s)[1].name == ROUTER_CONFIG_VOLUME@);
    }
}

/// The router configuration is mounted, and caliban is pointed at the file inside the mount,
/// exactly if the task names one.
pub proof fn law_router_configuration(t: CalibanTaskView, s: SettingsView)
    ensures
        router_env_of(t).len() == (if t.router_config() is Some {
            1int
        } else {
            0int
        }),
        mounts_of(t, s).len() == 2 + router_env_of(t).len(),
        volumes_of(t, s).len() == 1 + router_env_of(t).len(),
        t.router_config() matches Some(cm) ==> {
            &&& volumes_of(t, s)[1].config_map == Some(ConfigMapVolumeSourceView { name: cm })
            &&& volumes_of(t, s)[1].name == mounts_of(t, s)[2].name
            &&& mounts_of(t, s)[2].read_only == Some(true)
            &&& router_env_of(t)[0].value == Some(
                mounts_of(t, s)[2].mount_path + "/caliban.toml"@,
            )
        },
{
    reveal_strlit("/etc/caliban/router");
    reveal_strlit("/etc/caliban/router/caliban.toml");
    reveal_strlit("/caliban.toml");
    assert(ROUTER_CONFIG_FILE@ =~= ROUTER_CONFIG_MOUNT@ + "/caliban.toml"@);
}

/// The prefix of a provider's variables does not depend on the letter case of its kind.
pub proof fn law_prefix_ignores_case(kind: Seq<char>)
    ensures
        prefix_of(kind) == prefix_of(kind.map_values(|c: char| text::lower(c))),
{
    let low = |c: char| text::lower(c);
    let up = |c: char| env_char(c);
    let k = kind.map_values(low);
    assert(k.map_values(low) =~= k);
    assert(k.map_values(up) =~= kind.map_values(up));
}

/// Whether a child's metadata ties it to the task: by that name, in the task's namespace, with the
/// labels that name the operator and the task, and owned by the task alone, as its controller.
pub open spec fn is_tied(m: ObjectMetaView, t: CalibanTaskView, name: Seq<char>) -> bool {
    &&& m.name == Some(name)
    &&& m.generate_name is None
    &&& m.namespace == t.metadata.namespace
    &&& m.uid is None
    &&& m.generation is None
    &&& m.labels is Some
    &&& m.labels->0.dom() =~= set!["app.kubernetes.io/managed-by"@, "caliban.caliban-ai.dev/task"@]
    &&& m.labels->0["app.kubernetes.io/managed-by"@] == "caliban-operator"@
    &&& m.labels->0["caliban.caliban-ai.dev/task"@] == t.metadata.name_any()
    &&& m.owner_references is Some
    &&& m.owner_references->0.len() == 1
    &&& ({
        let o = m.owner_references->0[0];
        &&& o.api_version == "caliban.caliban-ai.dev/v1alpha1"@
        &&& o.kind == "CalibanTask"@
        &&& o.name == t.metadata.name_any()
        &&& t.metadata.uid matches Some(u) ==> o.uid == u
        &&& t.metadata.uid is None ==> o.uid.len() == 0
        &&& o.controller == Some(true)
        &&& o.block_owner_deletion == Some(true)
    })
}

/// The children are named after the task and tied to it, and the pod carries the labels of the
/// task, by which the policy selects it.
pub proof fn law_children_are_tied_to_the_task(
    t: CalibanTaskView,
    rw: ResolvedWorkspaceView,
    s: SettingsView,
)
    ensures
        ({
            let p = plan_of(t, rw, s);
            let name = t.metadata.name_any();
            let pod = p.sandbox.spec.pod_template.metadata->0;
            &&& is_tied(p.service_account.metadata, t, name + "-sa"@)
            &&& is_tied(p.network_policy.metadata, t, name + "-netpol"@)
            &&& is_tied(p.sandbox.metadata, t, name + "-sbx"@)
            &&& p.sandbox.spec.pod_template.metadata is Some
            &&& pod.labels == p.sandbox.metadata.labels
            &&& pod.name is None && pod.namespace is None && pod.owner_references is None
            &&& pod.generate_name is None && pod.uid is None && pod.generation is None
            &&& p.network_policy.spec is Some
            &&& p.network_policy.spec->0.pod_selector == Some(
                LabelSelectorView { match_labels: pod.labels },
            )
        }),
{
    reveal_strlit("app.kubernetes.io/managed-by");
    reveal_strlit("caliban.caliban-ai.dev/task");
    assert("app.kubernetes.io/managed-by"@[0] == 'a');
    assert("caliban.caliban-ai.dev/task"@[0] == 'c');
}

/// All that the policy admits for incoming traffic is TCP: the control port, which caliband listens
/// on and is probed on, and the window of the agents' streams; nothing else, and from one peer.
pub proof fn law_incoming_traffic_is_tcp(
    t: CalibanTaskView,
    rw: ResolvedWorkspaceView,
    s: SettingsView,
)
    ensures
        ({
            let policy = plan_of(t, rw, s).network_policy.spec->0;
            let c = plan_of(t, rw, s).sandbox.spec.pod_template.spec->0.containers[0];
            let rules = policy.ingress->0;
            let ports = rules[0].ports->0;
            &&& policy.ingress is Some && rules.len() == 1
            &&& rules[0].ports is Some && ports.len() == 2
            &&& forall|i: int| 0 <= i < ports.len() ==> (#[trigger] ports[i]).protocol == Some("TCP"@)
            &&& ports[0].port == Some(s.caliband_port) && ports[0].end_port is None
            &&& ports[1].port == Some(s.agent_port_base) && ports[1].end_port == Some(
                s.agent_port_end,
            )
            &&& c.readiness_probe matches Some(r) && r.tcp_socket matches Some(a) && Some(a.port)
                == ports[0].port
            &&& c.startup_probe matches Some(r) && r.tcp_socket matches Some(a) && Some(a.port)
                == ports[0].port
            &&& rules[0].from is Some && rules[0].from->0.len() == 1
        }),
{
}

/// Who may reach caliband are pods alone, never addresses: those with the configured labels, or all
/// of them without any, in the configured namespace, or in the task's own without one.
pub proof fn law_peer(t: CalibanTaskView, rw: ResolvedWorkspaceView, s: SettingsView)
    ensures
        ({
            let peer = plan_of(t, rw, s).network_policy.spec->0.ingress->0[0].from->0[0];
            &&& peer.ip_block is None
            &&& peer.pod_selector is Some
            &&& (forall|k: Seq<char>| !#[trigger] s.ingress_pod_selector.contains_key(k))
                ==> peer.pod_selector->0.match_labels is None
            &&& forall|k: Seq<char>| #[trigger]
                s.ingress_pod_selector.contains_key(k) ==> peer.pod_selector->0.match_labels == Some(
                    s.ingress_pod_selector,
                )
            &&& s.ingress_namespace is None ==> peer.namespace_selector is None
            &&& s.ingress_namespace matches Some(ns) ==> {
                let labels = peer.namespace_selector->0.match_labels;
                &&& peer.namespace_selector is Some && labels is Some
                &&& labels->0.dom() =~= set!["kubernetes.io/metadata.name"@]
                &&& labels->0["kubernetes.io/metadata.name"@] == ns
            }
        }),
{
    if forall|k: Seq<char>| !#[trigger] s.ingress_pod_selector.contains_key(k) {
        assert(s.ingress_pod_selector =~= Map::<Seq<char>, Seq<char>>::empty());
    }
}

/// Names can always be looked up: the first egress rule admits port 53, over UDP and over TCP, to
/// anywhere. Without a restriction one more rule admits everything; with one, each listed block
/// gets a rule of its own, over TCP, for its listed ports.
pub proof fn law_outgoing_traffic(t: CalibanTaskView, rw: ResolvedWorkspaceView, s: SettingsView)
    ensures
        ({
            let rules = plan_of(t, rw, s).network_policy.spec->0.egress->0;
            let dns = rules[0];
            &&& plan_of(t, rw, s).network_policy.spec->0.egress is Some
            &&& rules.len() > 0
            &&& dns.to is None
            &&& dns.ports is Some && dns.ports->0.len() == 2
            &&& dns.ports->0[0].protocol == Some("UDP"@) && dns.ports->0[1].protocol == Some("TCP"@)
            &&& forall|i: int|
                0 <= i < 2 ==> (#[trigger] dns.ports->0[i]).port == Some(53i32)
                    && dns.ports->0[i].end_port is None
            &&& rw.egress is None ==> rules.len() == 2 && rules[1].to is None && rules[1].ports
                is None
            &&& rw.egress matches Some(e) ==> rules.len() == 1 + e.allow.len()
        }),
        rw.egress matches Some(e) ==> forall|i: int, k: int|
            #![trigger e.allow[i], e.allow[i].ports[k]]
            0 <= i < e.allow.len() && 0 <= k < e.allow[i].ports.len() ==> {
                let rule = plan_of(t, rw, s).network_policy.spec->0.egress->0[i + 1];
                &&& rule.ports is Some && rule.ports->0.len() == e.allow[i].ports.len()
                &&& rule.ports->0[k].protocol == Some("TCP"@)
                &&& rule.ports->0[k].port == Some(e.allow[i].ports[k])
                &&& rule.ports->0[k].end_port is None
            },
        rw.egress matches Some(e) ==> forall|i: int|
            0 <= i < e.allow.len() ==> {
                let rule = plan_of(t, rw, s).network_policy.spec->0.egress->0[i + 1];
                &&& rule.to is Some && rule.to->0.len() == 1
                &&& rule.to->0[0].ip_block is Some
                &&& rule.to->0[0].ip_block->0.cidr == (#[trigger] e.allow[i]).cidr
                &&& rule.to->0[0].pod_selector is None && rule.to->0[0].namespace_selector is None
                &&& e.allow[i].ports.len() == 0 ==> rule.ports is None
            },
{
}

/// The prefix of a provider's variables: `GEMINI` for google and gemini, `AZURE_OPENAI` for azure in
/// its three spellings, in any letter case; and for every other kind the kind itself, character by
/// character, in upper case and with `_` for `-` and `.`.
pub proof fn law_prefix(kind: Seq<char>)
    ensures
        ({
            let reads = |x: Seq<char>|
                kind.len() == x.len() && forall|i: int|
                    0 <= i < x.len() ==> text::lower(#[trigger] kind[i]) == x[i];
            let other = !reads("google"@) && !reads("gemini"@) && !reads("azure"@) && !reads("azure-openai"@)
                && !reads("azure_openai"@);
            &&& reads("google"@) || reads("gemini"@) ==> prefix_of(kind) == "GEMINI"@
            &&& reads("azure"@) || reads("azure-openai"@) || reads("azure_openai"@) ==> prefix_of(kind)
                == "AZURE_OPENAI"@
            &&& other ==> prefix_of(kind).len() == kind.len() && forall|i: int|
                0 <= i < kind.len() ==> #[trigger] prefix_of(kind)[i] == (if kind[i] == '-'
                    || kind[i] == '.' {
                    '_'
                } else {
                    text::upper(kind[i])
                })
        }),
{
    let k = kind.map_values(|c: char| text::lower(c));
    assert forall|x: Seq<char>|
        kind.len() == x.len() && (forall|i: int|
            0 <= i < x.len() ==> text::lower(#[trigger] kind[i]) == x[i]) implies k == x by {
        assert(k =~= x);
    }
    reveal_strlit("google");
    reveal_strlit("gemini");
    reveal_strlit("azure");
    reveal_strlit("azure-openai");
    reveal_strlit("azure_openai");
    assert("google"@[0] == 'g' && "gemini"@[0] == 'g' && "azure"@[0] == 'a' && "azure-openai"@[0]
        == 'a' && "azure_openai"@[0] == 'a');
    if k == "google"@ || k == "gemini"@ || k == "azure"@ || k == "azure-openai"@ || k
        == "azure_openai"@ {
        assert forall|i: int| 0 <= i < kind.len() implies text::lower(#[trigger] kind[i]) == k[i] by {}
    }
}

/// A provider's variables: its kind, then its endpoint if it has one of its own, then its key if it
/// needs one, under the names that caliban reads for its kind. The model is in none of them.
pub proof fn law_provider_variables(rp: ResolvedProviderView)
    ensures
        ({
            let e = provider_env_of(rp);
            let has_url = rp.base_url is Some;
            let url = e[1];
            let key = e[if has_url {
                2
            } else {
                1
            }];
            &&& e.len() == 1 + (if has_url {
                1int
            } else {
                0int
            }) + (if rp.credentials_ref is Some {
                1int
            } else {
                0int
            })
            &&& e[0].name == "CALIBAN_PROVIDER"@ && e[0].value == Some(rp.kind) && e[0].value_from
                is None
            &&& has_url ==> url.name == prefix_of(rp.kind) + "_BASE_URL"@ && url.value
                == rp.base_url && url.value_from is None
            &&& rp.credentials_ref matches Some(c) ==> {
                &&& key.name == prefix_of(rp.kind) + "_API_KEY"@
                &&& key.value is None
                &&& key.value_from is Some && key.value_from->0.secret_key_ref is Some
                &&& key.value_from->0.secret_key_ref->0.name == c.secret_name
                &&& key.value_from->0.secret_key_ref->0.key == c.key
                &&& key.value_from->0.secret_key_ref->0.optional == Some(false)
            }
        }),
{
}

/// The environment of caliband holds, in this order and with nothing between or behind: what the
/// task's state asks for, the router configuration, the provider's variables, each variable of the
/// workspace as it stands, and the session token, by reference to its Secret.
pub proof fn law_environment(t: CalibanTaskView, rw: ResolvedWorkspaceView, s: SettingsView)
    ensures
        ({
            let e = plan_of(t, rw, s).sandbox.spec.pod_template.spec->0.containers[0].env->0;
            let state = storage::storage_env_of(t.spec.state);
            let router = t.spec.model is Some && t.spec.model->0.router_config_ref is Some;
            let r = if router {
                1int
            } else {
                0int
            };
            let n = state.len() + r;
            let p = provider_env_of(rw.provider);
            let m = n + p.len();
            let token = e[m + rw.env.len()];
            &&& plan_of(t, rw, s).sandbox.spec.pod_template.spec->0.containers[0].env is Some
            &&& e.len() == m + rw.env.len() + 1
            &&& e.take(state.len() as int) =~= state
            &&& router ==> e[state.len() as int].name == "CALIBAN_ROUTER_CONFIG"@
                && e[state.len() as int].value == Some("/etc/caliban/router/caliban.toml"@)
                && e[state.len() as int].value_from is None
            &&& e.subrange(n, m) =~= p
            &&& forall|i: int|
                0 <= i < rw.env.len() ==> {
                    let v = e[m + i];
                    v.name == (#[trigger] rw.env[i]).name && v.value == Some(rw.env[i].value)
                        && v.value_from is None
                }
            &&& token.name == "CALIBAN_DAEMON_TOKEN"@ && token.value is None
            &&& token.value_from is Some && token.value_from->0.secret_key_ref is Some
            &&& token.value_from->0.secret_key_ref->0.name == s.session_token_secret
            &&& token.value_from->0.secret_key_ref->0.key == s.session_token_key
            &&& token.value_from->0.secret_key_ref->0.optional == Some(false)
        }),
{
}

/// The clone lines of the sources, in their order.
pub open spec fn lines_of(sources: Seq<SourceView>) -> Seq<char>
    decreases sources.len(),
{
    if sources.len() == 0 {
        Seq::empty()
    } else {
        clone_line(sources[0]) + lines_of(sources.drop_first())
    }
}

/// The script stops at the first failure, and then has the line of each source, in the order of
/// the sources: more sources add their lines behind, and take none away.
pub proof fn law_script_clones_every_source(a: Seq<SourceView>, b: Seq<SourceView>)
    ensures
        script_of(Seq::empty()) == "set -eu\n"@,
        script_of(a + b) == script_of(a) + lines_of(b),
        script_of(b) == "set -eu\n"@ + lines_of(b),
    decreases b.len(),
{
    let none = Seq::<SourceView>::empty();
    lemma_lines(a, b);
    lemma_lines(none, b);
    assert(none + b =~= b);
}

/// The line of every source stands in the script, whole.
pub proof fn law_script_holds_every_line(sources: Seq<SourceView>, i: int)
    requires
        0 <= i < sources.len(),
    ensures
        script_of(sources) == script_of(sources.take(i)) + clone_line(sources[i]) + lines_of(
            sources.skip(i + 1),
        ),
{
    let rest = sources.skip(i);
    law_script_clones_every_source(sources.take(i), rest);
    assert(sources.take(i) + rest =~= sources);
    assert(rest.drop_first() =~= sources.skip(i + 1));
    assert(script_of(sources) =~= script_of(sources.take(i)) + clone_line(sources[i]) + lines_of(
        sources.skip(i + 1),
    ));
}

proof fn lemma_lines(a: Seq<SourceView>, b: Seq<SourceView>)
    ensures
        script_of(a + b) == script_of(a) + lines_of(b),
    decreases b.len(),
{
    if b.len() == 0 {
        assert(a + b =~= a);
        assert(script_of(a) + lines_of(b) =~= script_of(a));
    } else {
        let first = a.push(b[0]);
        assert(a + b =~= first + b.drop_first());
        lemma_lines(first, b.drop_first());
        assert(first.drop_last() =~= a);
        assert(first.last() == b[0]);
        assert(script_of(first) + lines_of(b.drop_first()) =~= script_of(a) + lines_of(b));
    }
}

/// The line of a source clones it, at its ref and into its path, unless the path holds a checkout
/// already; a shell reads each of the four values in it as one word and exactly as it stands.
pub proof fn law_clone_line(src: SourceView) -> (w: (Seq<char>, Seq<char>, Seq<char>, Seq<char>))
    ensures
        clone_line(src) == "if [ ! -d "@ + w.0 + " ]; then git clone --depth 1 --branch "@ + w.1
            + " "@ + w.2 + " "@ + w.3 + "; fi\n"@,
        shell::read_word(w.0, false) == Some((src.path + "/.git"@, Seq::<char>::empty())),
        shell::read_word(w.1, false) == Some((src.git_ref, Seq::<char>::empty())),
        shell::read_word(w.2, false) == Some((src.repo, Seq::<char>::empty())),
        shell::read_word(w.3, false) == Some((src.path, Seq::<char>::empty())),
{
    let none = Seq::<char>::empty();
    let git = src.path + "/.git"@;
    shell::law_quoted_value_is_read_back(git, none);
    shell::law_quoted_value_is_read_back(src.git_ref, none);
    shell::law_quoted_value_is_read_back(src.repo, none);
    shell::law_quoted_value_is_read_back(src.path, none);
    assert(shell::squote(git) + none =~= shell::squote(git));
    assert(shell::squote(src.git_ref) + none =~= shell::squote(src.git_ref));
    assert(shell::squote(src.repo) + none =~= shell::squote(src.repo));
    assert(shell::squote(src.path) + none =~= shell::squote(src.path));
    (
        shell::squote(git),
        shell::squote(src.git_ref),
        shell::squote(src.repo),
        shell::squote(src.path),
    )
}

/// Sources are cloned before caliband starts: exactly if there are any, one init container runs the
/// script in a shell, from the configured image, on the volume that caliband works in.
pub proof fn law_clone_container(t: CalibanTaskView, rw: ResolvedWorkspaceView, s: SettingsView)
    ensures
        ({
            let pod = plan_of(t, rw, s).sandbox.spec.pod_template.spec->0;
            let init = pod.init_containers->0;
            let mounts = pod.containers[0].volume_mounts->0;
            &&& pod.init_containers is None <==> rw.sources.len() == 0
            &&& rw.sources.len() > 0 ==> {
                &&& init.len() == 1
                &&& init[0].name == "clone-workspace"@
                &&& init[0].image == Some(s.git_image)
                &&& init[0].command is Some && init[0].command->0.len() == 3
                &&& init[0].command->0[0] == "/bin/sh"@
                &&& init[0].command->0[1] == "-c"@
                &&& init[0].command->0[2] == script_of(rw.sources)
                &&& init[0].args is None && init[0].env is None && init[0].ports is None
                &&& init[0].volume_mounts is Some && init[0].volume_mounts->0.len() == 1
                &&& init[0].volume_mounts->0[0] == mounts[0]
                &&& init[0].resources == pod.containers[0].resources
                &&& init[0].readiness_probe is None && init[0].startup_probe is None
                    && init[0].liveness_probe is None
            }
            &&& mounts[0].mount_path == s.workspace_root
            &&& mounts[0].read_only is None
        }),
{
}

/// A container asks for exactly the CPU and memory that are configured, and is held to exactly the
/// limits that are configured; where nothing is, there is no block for it.
pub proof fn law_quantities(t: CalibanTaskView, rw: ResolvedWorkspaceView, s: SettingsView)
    ensures
        ({
            let r = plan_of(t, rw, s).sandbox.spec.pod_template.spec->0.containers[0].resources;
            let cpu = "cpu"@;
            let memory = "memory"@;
            let gives = |
                m: Option<Map<Seq<char>, Seq<char>>>,
                c: Option<Seq<char>>,
                q: Option<Seq<char>>,
            |
                {
                    &&& m is None <==> c is None && q is None
                    &&& m is Some ==> {
                        &&& m->0.contains_key(cpu) <==> c is Some
                        &&& c is Some ==> m->0[cpu] == c->0
                        &&& m->0.contains_key(memory) <==> q is Some
                        &&& q is Some ==> m->0[memory] == q->0
                    }
                };
            &&& r is None <==> s.caliband_cpu_request is None && s.caliband_memory_request is None
                && s.caliband_cpu_limit is None && s.caliband_memory_limit is None
            &&& r is Some ==> gives(
                r->0.requests,
                s.caliband_cpu_request,
                s.caliband_memory_request,
            ) && gives(r->0.limits, s.caliband_cpu_limit, s.caliband_memory_limit)
        }),
{
    reveal_strlit("cpu");
    reveal_strlit("memory");
    assert("cpu"@.len() == 3 && "memory"@.len() == 6);
}

/// The pod runs caliband alone, from the configured image, and restarts it for no probe: it is
/// ready once the control port answers (three failures, five seconds apart, make it unready), and
/// may take two minutes to start.
pub proof fn law_pod(t: CalibanTaskView, rw: ResolvedWorkspaceView, s: SettingsView)
    ensures
        ({
            let sandbox = plan_of(t, rw, s).sandbox;
            let pod = sandbox.spec.pod_template.spec->0;
            let c = pod.containers[0];
            let class = |i: Option<IsolationSpecView>|
                if i is Some {
                    i->0.runtime_class
                } else {
                    None
                };
            &&& sandbox.spec.pod_template.spec is Some
            &&& pod.containers.len() == 1
            &&& c.name == "caliband"@
            &&& c.image == Some(s.caliband_image)
            &&& c.command is None
            &&& c.ports is Some && c.ports->0.len() == 1
            &&& c.ports->0[0].container_port == s.caliband_port
            &&& c.ports->0[0].name == Some("caliband"@)
            &&& c.liveness_probe is None
            &&& c.readiness_probe is Some && c.startup_probe is Some
            &&& c.readiness_probe->0.period_seconds == Some(5i32)
            &&& c.readiness_probe->0.failure_threshold == Some(3i32)
            &&& c.startup_probe->0.period_seconds == Some(2i32)
            &&& c.startup_probe->0.failure_threshold == Some(60i32)
            &&& pod.runtime_class_name == (if class(t.spec.isolation) is Some {
                class(t.spec.isolation)
            } else {
                class(rw.isolation)
            })
            &&& pod.service_account_name == Some(t.metadata.name_any() + "-sa"@)
            &&& pod.automount_service_account_token == Some(false)
            &&& sandbox.spec.service == Some(true)
            &&& sandbox.spec.operating_mode == Some("Running"@)
            &&& sandbox.status is None
        }),
{
}

/// Each option of caliband's command line is followed by its value, and there are no others.
pub proof fn law_arguments(t: CalibanTaskView, rw: ResolvedWorkspaceView, s: SettingsView)
    ensures
        ({
            let a = plan_of(t, rw, s).sandbox.spec.pod_template.spec->0.containers[0].args->0;
            let tls = "/etc/caliband/tls/"@;
            let host = t.metadata.name_any() + "-sbx."@ + t.metadata.namespace_or_empty() + ".svc."@
                + s.cluster_domain;
            &&& plan_of(t, rw, s).sandbox.spec.pod_template.spec->0.containers[0].args is Some
            &&& a.len() == 16
            &&& a[0] == "--workspace-root"@ && a[1] == s.workspace_root
            &&& a[2] == "--listen"@ && a[3] == "0.0.0.0:"@ + text::decimal_int(
                s.caliband_port as int,
            )
            &&& a[4] == "--advertise-host"@ && a[5] == host
            &&& a[6] == "--agent-port-base"@ && a[7] == text::decimal_int(s.agent_port_base as int)
            &&& a[8] == "--tls-cert"@ && a[9] == tls + "tls.crt"@
            &&& a[10] == "--tls-key"@ && a[11] == tls + "tls.key"@
            &&& a[12] == "--tls-ca"@ && a[13] == tls + "ca.crt"@
            &&& a[14] == "--tls-server-name"@ && a[15] == s.session_server_name
        }),
{
    reveal_strlit("/etc/caliband/tls/");
    reveal_strlit("/etc/caliband/tls/tls.crt");
    reveal_strlit("/etc/caliband/tls/tls.key");
    reveal_strlit("/etc/caliband/tls/ca.crt");
    reveal_strlit("tls.crt");
    reveal_strlit("tls.key");
    reveal_strlit("ca.crt");
    reveal_strlit("-sbx.");
    reveal_strlit("-sbx");
    reveal_strlit(".");
    let a = args_of(t, s);
    assert(a[9] =~= "/etc/caliband/tls/"@ + "tls.crt"@);
    assert(a[11] =~= "/etc/caliband/tls/"@ + "tls.key"@);
    assert(a[13] =~= "/etc/caliband/tls/"@ + "ca.crt"@);
    assert(a[5] =~= t.metadata.name_any() + "-sbx."@ + t.metadata.namespace_or_empty() + ".svc."@
        + s.cluster_domain);
}

/// Three things can be mounted into caliband, each where it is looked for: the checkouts, from a
/// claim of the configured size that one node at a time may write; the serving certificate, from
/// its Secret, where the command line points; and the router configuration, from the ConfigMap that
/// the task names. The last two cannot be written.
pub proof fn law_volumes(t: CalibanTaskView, rw: ResolvedWorkspaceView, s: SettingsView)
    ensures
        ({
            let sandbox = plan_of(t, rw, s).sandbox;
            let pod = sandbox.spec.pod_template.spec->0;
            let mounts = pod.containers[0].volume_mounts->0;
            let volumes = pod.volumes->0;
            let claims = sandbox.spec.volume_claim_templates->0;
            let claim = claims[0].spec->0;
            let router = t.spec.model is Some && t.spec.model->0.router_config_ref is Some;
            &&& pod.containers[0].volume_mounts is Some && pod.volumes is Some
            &&& sandbox.spec.volume_claim_templates is Some && claims.len() == 1
            &&& mounts.len() == (if router {
                3int
            } else {
                2int
            })
            &&& volumes.len() == mounts.len() - 1
            &&& claims[0].metadata.name == Some(mounts[0].name)
            &&& claims[0].metadata.namespace is None && claims[0].metadata.labels is None
                && claims[0].metadata.owner_references is None
            &&& claims[0].spec is Some
            &&& claim.access_modes is Some && claim.access_modes->0.len() == 1
            &&& claim.access_modes->0[0] == "ReadWriteOnce"@
            &&& claim.resources is Some && claim.resources->0.requests is Some
            &&& claim.resources->0.requests->0.dom() =~= set!["storage"@]
            &&& claim.resources->0.requests->0["storage"@] == s.workspace_storage
            &&& mounts[1].mount_path == "/etc/caliband/tls"@ && mounts[1].read_only == Some(true)
            &&& volumes[0].name == mounts[1].name
            &&& volumes[0].secret is Some && volumes[0].secret->0.secret_name == Some(
                s.session_tls_secret,
            )
            &&& volumes[0].config_map is None
            &&& router ==> {
                &&& mounts[2].mount_path == "/etc/caliban/router"@
                &&& mounts[2].read_only == Some(true)
                &&& volumes[1].name == mounts[2].name
                &&& volumes[1].secret is None
                &&& volumes[1].config_map is Some
                &&& volumes[1].config_map->0.name == t.spec.model->0.router_config_ref->0
            }
            &&& mounts[0].name != mounts[1].name
            &&& router ==> mounts[2].name != mounts[0].name && mounts[2].name != mounts[1].name
        }),
{
    reveal_strlit("workspace");
    reveal_strlit("session-tls");
    reveal_strlit("router-config");
    assert("workspace"@.len() == 9 && "session-tls"@.len() == 11 && "router-config"@.len() == 13);
}

/// The ServiceAccount and the policy are the task's alone: the workspace and the settings have no
/// part in the one, and the workspace none in the other but for its egress.
pub proof fn law_who_decides(
    t: CalibanTaskView,
    a: ResolvedWorkspaceView,
    b: ResolvedWorkspaceView,
    s: SettingsView,
    u: SettingsView,
)
    ensures
        plan_of(t, a, s).service_account == plan_of(t, b, u).service_account,
        a.egress == b.egress ==> plan_of(t, a, s).network_policy == plan_of(t, b, s).network_policy,
{
}

} // verus!
