//! The statuses as JSON: the field names that the API server knows, with unset fields left out.

use vstd::prelude::*;

use crate::crd::{
    CalibanTaskStatus, CalibanTaskStatusView, Condition, ConditionView, IsolationSpec,
    IsolationSpecView, PermissionPosture, Phase,
};
use crate::json;
use crate::json::JsonView;
use crate::workspace::{
    CredentialsRef, CredentialsRefView, EgressRule, EgressRuleView, EgressSpec, EgressSpecView,
    EnvEntry, EnvEntryView, ResolvedProvider, ResolvedProviderView, ResolvedWorkspace,
    ResolvedWorkspaceView, Source, SourceView, WorkspacePhase, WorkspaceStatus, WorkspaceStatusView,
};

verus! {

// ---------------------------------------------------------------------------------------------
// Names of the phases and postures
// ---------------------------------------------------------------------------------------------

impl Phase {
    /// The name of the phase.
    pub open spec fn text(self) -> Seq<char> {
        match self {
            Phase::Pending => "Pending"@,
            Phase::Provisioning => "Provisioning"@,
            Phase::Running => "Running"@,
            Phase::Draining => "Draining"@,
            Phase::Completed => "Completed"@,
            Phase::Failed => "Failed"@,
        }
    }

    /// The name of the phase.
    pub fn name(self) -> (r: &'static str)
        ensures
            r@ == self.text(),
    {
        match self {
            Phase::Pending => "Pending",
            Phase::Provisioning => "Provisioning",
            Phase::Running => "Running",
            Phase::Draining => "Draining",
            Phase::Completed => "Completed",
            Phase::Failed => "Failed",
        }
    }
}

impl WorkspacePhase {
    /// The name of the phase.
    pub open spec fn text(self) -> Seq<char> {
        match self {
            WorkspacePhase::Pending => "Pending"@,
            WorkspacePhase::Ready => "Ready"@,
            WorkspacePhase::Failed => "Failed"@,
        }
    }

    /// The name of the phase.
    pub fn name(self) -> (r: &'static str)
        ensures
            r@ == self.text(),
    {
        match self {
            WorkspacePhase::Pending => "Pending",
            WorkspacePhase::Ready => "Ready",
            WorkspacePhase::Failed => "Failed",
        }
    }
}

impl PermissionPosture {
    /// The name of the posture.
    pub open spec fn text(self) -> Seq<char> {
        match self {
            PermissionPosture::Supervised => "supervised"@,
            PermissionPosture::Unattended => "unattended"@,
        }
    }

    /// The name of the posture.
    pub fn name(self) -> (r: &'static str)
        ensures
            r@ == self.text(),
    {
        match self {
            PermissionPosture::Supervised => "supervised",
            PermissionPosture::Unattended => "unattended",
        }
    }
}

// ---------------------------------------------------------------------------------------------
// Conditions
// ---------------------------------------------------------------------------------------------

/// A condition.
pub open spec fn condition_of(c: ConditionView) -> JsonView {
    let m = map!["type"@ => JsonView::Text(c.type_), "status"@ => JsonView::Text(c.status)];
    let m = json::with_text(m, "reason"@, c.reason);
    JsonView::Object(json::with_text(m, "message"@, c.message))
}

/// The conditions; nothing if there are none.
pub open spec fn conditions_of(cs: Seq<ConditionView>) -> Option<JsonView> {
    if cs.len() == 0 {
        None
    } else {
        Some(JsonView::List(cs.map_values(|c: ConditionView| condition_of(c))))
    }
}

/// A condition.
fn condition_json(c: &Condition) -> (r: serde_json::Value)
    ensures
        json::contents(r) == condition_of(c.deep_view()),
{
    let mut m = json::empty();
    json::put(&mut m, "type", json::text(c.type_.as_str()));
    json::put(&mut m, "status", json::text(c.status.as_str()));
    json::put_text(&mut m, "reason", &c.reason);
    json::put_text(&mut m, "message", &c.message);
    json::object(m)
}

/// Adds the conditions, if there are any.
fn put_conditions(
    m: &mut serde_json::Map<String, serde_json::Value>,
    cs: &Vec<Condition>,
)
    ensures
        json::members(*final(m)) == json::with(
            json::members(*old(m)),
            "conditions"@,
            conditions_of(cs.deep_view()),
        ),
{
    let ghost all = cs.deep_view();
    if cs.len() == 0 {
        return;
    }
    let ghost f = |c: ConditionView| condition_of(c);
    let mut items: Vec<serde_json::Value> = Vec::new();
    let mut i: usize = 0;
    assert(json::each(items@) =~= all.take(0).map_values(f));
    while i < cs.len()
        invariant
            i <= cs.len(),
            all == cs.deep_view(),
            f == (|c: ConditionView| condition_of(c)),
            json::each(items@) == all.take(i as int).map_values(f),
        decreases cs.len() - i,
    {
        let ghost before = json::each(items@);
        items.push(condition_json(&cs[i]));
        assert(json::each(items@) =~= before.push(f(all[i as int])));
        i = i + 1;
        assert(json::each(items@) =~= all.take(i as int).map_values(f));
    }
    assert(all.take(i as int) =~= all);
    json::put(m, "conditions", json::list(items));
}

// ---------------------------------------------------------------------------------------------
// The pinned workspace
// ---------------------------------------------------------------------------------------------

/// A source.
pub open spec fn source_of(s: SourceView) -> JsonView {
    JsonView::Object(
        map![
            "name"@ => JsonView::Text(s.name),
            "repo"@ => JsonView::Text(s.repo),
            "ref"@ => JsonView::Text(s.git_ref),
            "path"@ => JsonView::Text(s.path),
        ],
    )
}

/// A reference to a key of a Secret.
pub open spec fn credentials_of(c: CredentialsRefView) -> JsonView {
    JsonView::Object(
        map![
            "secretName"@ => JsonView::Text(c.secret_name),
            "key"@ => JsonView::Text(c.key),
        ],
    )
}

/// A provider.
pub open spec fn provider_of(p: ResolvedProviderView) -> JsonView {
    let m = map!["name"@ => JsonView::Text(p.name), "kind"@ => JsonView::Text(p.kind)];
    let m = json::with_text(m, "baseUrl"@, p.base_url);
    let m = json::with_text(m, "model"@, p.model);
    JsonView::Object(
        json::with(
            m,
            "credentialsRef"@,
            match p.credentials_ref {
                Some(c) => Some(credentials_of(c)),
                None => None,
            },
        ),
    )
}

/// An environment entry.
pub open spec fn env_entry_of(e: EnvEntryView) -> JsonView {
    JsonView::Object(
        map!["name"@ => JsonView::Text(e.name), "value"@ => JsonView::Text(e.value)],
    )
}

/// An isolation block.
pub open spec fn isolation_of(i: IsolationSpecView) -> JsonView {
    let m = json::with_text(json::none(), "runtimeClass"@, i.runtime_class);
    JsonView::Object(json::with_text(m, "worktrees"@, i.worktrees))
}

/// An egress rule.
pub open spec fn egress_rule_of(r: EgressRuleView) -> JsonView {
    JsonView::Object(
        json::with(
            map!["cidr"@ => JsonView::Text(r.cidr)],
            "ports"@,
            if r.ports.len() == 0 {
                None
            } else {
                Some(JsonView::List(r.ports.map_values(|p: i32| JsonView::Number(p as int))))
            },
        ),
    )
}

/// An egress restriction.
pub open spec fn egress_of(e: EgressSpecView) -> JsonView {
    JsonView::Object(
        map![
            "allow"@ => JsonView::List(e.allow.map_values(|r: EgressRuleView| egress_rule_of(r))),
        ],
    )
}

/// A pinned workspace.
pub open spec fn resolved_of(rw: ResolvedWorkspaceView) -> JsonView {
    let m = map![
        "sources"@ => JsonView::List(rw.sources.map_values(|s: SourceView| source_of(s))),
        "provider"@ => provider_of(rw.provider),
    ];
    let m = json::with(
        m,
        "env"@,
        if rw.env.len() == 0 {
            None
        } else {
            Some(JsonView::List(rw.env.map_values(|e: EnvEntryView| env_entry_of(e))))
        },
    );
    let m = json::with(
        m,
        "isolation"@,
        match rw.isolation {
            Some(i) => Some(isolation_of(i)),
            None => None,
        },
    );
    let m = json::with(
        m,
        "egress"@,
        match rw.egress {
            Some(e) => Some(egress_of(e)),
            None => None,
        },
    );
    JsonView::Object(
        json::with(
            m,
            "agentPolicy"@,
            match rw.agent_policy {
                Some(p) => Some(
                    JsonView::Object(
                        map!["allowUnattended"@ => JsonView::Bool(p.allow_unattended)],
                    ),
                ),
                None => None,
            },
        ),
    )
}

/// A source.
fn source_json(s: &Source) -> (r: serde_json::Value)
    ensures
        json::contents(r) == source_of(s.deep_view()),
{
    let mut m = json::empty();
    json::put(&mut m, "name", json::text(s.name.as_str()));
    json::put(&mut m, "repo", json::text(s.repo.as_str()));
    json::put(&mut m, "ref", json::text(s.git_ref.as_str()));
    json::put(&mut m, "path", json::text(s.path.as_str()));
    json::object(m)
}

/// The sources.
fn sources_json(sources: &Vec<Source>) -> (r: serde_json::Value)
    ensures
        json::contents(r) == JsonView::List(
            sources.deep_view().map_values(|s: SourceView| source_of(s)),
        ),
{
    let ghost all = sources.deep_view();
    let ghost f = |s: SourceView| source_of(s);
    let mut items: Vec<serde_json::Value> = Vec::new();
    let mut i: usize = 0;
    assert(json::each(items@) =~= all.take(0).map_values(f));
    while i < sources.len()
        invariant
            i <= sources.len(),
            all == sources.deep_view(),
            f == (|s: SourceView| source_of(s)),
            json::each(items@) == all.take(i as int).map_values(f),
        decreases sources.len() - i,
    {
        let ghost before = json::each(items@);
        items.push(source_json(&sources[i]));
        assert(json::each(items@) =~= before.push(f(all[i as int])));
        i = i + 1;
        assert(json::each(items@) =~= all.take(i as int).map_values(f));
    }
    assert(all.take(i as int) =~= all);
    json::list(items)
}

/// A reference to a key of a Secret.
fn credentials_json(c: &CredentialsRef) -> (r: serde_json::Value)
    ensures
        json::contents(r) == credentials_of(c.deep_view()),
{
    let mut m = json::empty();
    json::put(&mut m, "secretName", json::text(c.secret_name.as_str()));
    json::put(&mut m, "key", json::text(c.key.as_str()));
    json::object(m)
}

/// A provider.
fn provider_json(p: &ResolvedProvider) -> (r: serde_json::Value)
    ensures
        json::contents(r) == provider_of(p.deep_view()),
{
    let mut m = json::empty();
    json::put(&mut m, "name", json::text(p.name.as_str()));
    json::put(&mut m, "kind", json::text(p.kind.as_str()));
    json::put_text(&mut m, "baseUrl", &p.base_url);
    json::put_text(&mut m, "model", &p.model);
    if let Some(c) = &p.credentials_ref {
        json::put(&mut m, "credentialsRef", credentials_json(c));
    }
    json::object(m)
}

/// An environment entry.
fn env_entry_json(e: &EnvEntry) -> (r: serde_json::Value)
    ensures
        json::contents(r) == env_entry_of(e.deep_view()),
{
    let mut m = json::empty();
    json::put(&mut m, "name", json::text(e.name.as_str()));
    json::put(&mut m, "value", json::text(e.value.as_str()));
    json::object(m)
}

/// The environment entries.
fn env_json(entries: &Vec<EnvEntry>) -> (r: serde_json::Value)
    ensures
        json::contents(r) == JsonView::List(
            entries.deep_view().map_values(|e: EnvEntryView| env_entry_of(e)),
        ),
{
    let ghost all = entries.deep_view();
    let ghost f = |e: EnvEntryView| env_entry_of(e);
    let mut items: Vec<serde_json::Value> = Vec::new();
    let mut i: usize = 0;
    assert(json::each(items@) =~= all.take(0).map_values(f));
    while i < entries.len()
        invariant
            i <= entries.len(),
            all == entries.deep_view(),
            f == (|e: EnvEntryView| env_entry_of(e)),
            json::each(items@) == all.take(i as int).map_values(f),
        decreases entries.len() - i,
    {
        let ghost before = json::each(items@);
        items.push(env_entry_json(&entries[i]));
        assert(json::each(items@) =~= before.push(f(all[i as int])));
        i = i + 1;
        assert(json::each(items@) =~= all.take(i as int).map_values(f));
    }
    assert(all.take(i as int) =~= all);
    json::list(items)
}

/// An isolation block.
fn isolation_json(i: &IsolationSpec) -> (r: serde_json::Value)
    ensures
        json::contents(r) == isolation_of(i.deep_view()),
{
    let mut m = json::empty();
    json::put_text(&mut m, "runtimeClass", &i.runtime_class);
    json::put_text(&mut m, "worktrees", &i.worktrees);
    json::object(m)
}

/// The ports of an egress rule.
fn ports_json(ports: &Vec<i32>) -> (r: serde_json::Value)
    ensures
        json::contents(r) == JsonView::List(
            ports.deep_view().map_values(|p: i32| JsonView::Number(p as int)),
        ),
{
    let ghost all = ports.deep_view();
    let ghost f = |p: i32| JsonView::Number(p as int);
    let mut items: Vec<serde_json::Value> = Vec::new();
    let mut i: usize = 0;
    assert(json::each(items@) =~= all.take(0).map_values(f));
    while i < ports.len()
        invariant
            i <= ports.len(),
            all == ports.deep_view(),
            f == (|p: i32| JsonView::Number(p as int)),
            json::each(items@) == all.take(i as int).map_values(f),
        decreases ports.len() - i,
    {
        let ghost before = json::each(items@);
        items.push(json::number(ports[i] as i64));
        assert(json::each(items@) =~= before.push(f(all[i as int])));
        i = i + 1;
        assert(json::each(items@) =~= all.take(i as int).map_values(f));
    }
    assert(all.take(i as int) =~= all);
    json::list(items)
}

/// An egress rule.
fn egress_rule_json(r: &EgressRule) -> (j: serde_json::Value)
    ensures
        json::contents(j) == egress_rule_of(r.deep_view()),
{
    let mut m = json::empty();
    json::put(&mut m, "cidr", json::text(r.cidr.as_str()));
    if r.ports.len() > 0 {
        json::put(&mut m, "ports", ports_json(&r.ports));
    }
    json::object(m)
}

/// An egress restriction.
fn egress_json(e: &EgressSpec) -> (r: serde_json::Value)
    ensures
        json::contents(r) == egress_of(e.deep_view()),
{
    let ghost all = e.allow.deep_view();
    let ghost f = |r: EgressRuleView| egress_rule_of(r);
    let mut items: Vec<serde_json::Value> = Vec::new();
    let mut i: usize = 0;
    assert(json::each(items@) =~= all.take(0).map_values(f));
    while i < e.allow.len()
        invariant
            i <= e.allow.len(),
            all == e.allow.deep_view(),
            f == (|r: EgressRuleView| egress_rule_of(r)),
            json::each(items@) == all.take(i as int).map_values(f),
        decreases e.allow.len() - i,
    {
        let ghost before = json::each(items@);
        items.push(egress_rule_json(&e.allow[i]));
        assert(json::each(items@) =~= before.push(f(all[i as int])));
        i = i + 1;
        assert(json::each(items@) =~= all.take(i as int).map_values(f));
    }
    assert(all.take(i as int) =~= all);
    let mut m = json::empty();
    json::put(&mut m, "allow", json::list(items));
    json::object(m)
}

/// A pinned workspace.
fn resolved_json(rw: &ResolvedWorkspace) -> (r: serde_json::Value)
    ensures
        json::contents(r) == resolved_of(rw.deep_view()),
{
    let mut m = json::empty();
    json::put(&mut m, "sources", sources_json(&rw.sources));
    json::put(&mut m, "provider", provider_json(&rw.provider));
    if rw.env.len() > 0 {
        json::put(&mut m, "env", env_json(&rw.env));
    }
    if let Some(i) = &rw.isolation {
        json::put(&mut m, "isolation", isolation_json(i));
    }
    if let Some(e) = &rw.egress {
        json::put(&mut m, "egress", egress_json(e));
    }
    if let Some(p) = &rw.agent_policy {
        let mut policy = json::empty();
        json::put(&mut policy, "allowUnattended", json::boolean(p.allow_unattended));
        json::put(&mut m, "agentPolicy", json::object(policy));
    }
    json::object(m)
}

// ---------------------------------------------------------------------------------------------
// The statuses
// ---------------------------------------------------------------------------------------------

/// The status of a task.
pub open spec fn task_status_of(s: CalibanTaskStatusView) -> JsonView {
    let m = map!["phase"@ => JsonView::Text(s.phase.text())];
    let m = json::with_text(m, "calibandEndpoint"@, s.caliband_endpoint);
    let m = json::with(
        m,
        "sandboxRef"@,
        match s.sandbox_ref {
            Some(r) => Some(JsonView::Object(map!["name"@ => JsonView::Text(r.name)])),
            None => None,
        },
    );
    let m = json::with_text(m, "checkpointRef"@, s.checkpoint_ref);
    let m = json::with(m, "conditions"@, conditions_of(s.conditions));
    let m = json::with(
        m,
        "resolvedWorkspace"@,
        match s.resolved_workspace {
            Some(rw) => Some(resolved_of(rw)),
            None => None,
        },
    );
    JsonView::Object(
        json::with_text(
            m,
            "permissionPosture"@,
            match s.permission_posture {
                Some(p) => Some(p.text()),
                None => None,
            },
        ),
    )
}

/// The status of a task.
pub fn task_status_json(s: &CalibanTaskStatus) -> (r: serde_json::Value)
    ensures
        json::contents(r) == task_status_of(s.deep_view()),
{
    let mut m = json::empty();
    json::put(&mut m, "phase", json::text(s.phase.name()));
    json::put_text(&mut m, "calibandEndpoint", &s.caliband_endpoint);
    if let Some(r) = &s.sandbox_ref {
        let mut named = json::empty();
        json::put(&mut named, "name", json::text(r.name.as_str()));
        json::put(&mut m, "sandboxRef", json::object(named));
    }
    json::put_text(&mut m, "checkpointRef", &s.checkpoint_ref);
    put_conditions(&mut m, &s.conditions);
    if let Some(rw) = &s.resolved_workspace {
        json::put(&mut m, "resolvedWorkspace", resolved_json(rw));
    }
    if let Some(p) = s.permission_posture {
        json::put(&mut m, "permissionPosture", json::text(p.name()));
    }
    json::object(m)
}

/// The status of a workspace.
pub open spec fn workspace_status_of(s: WorkspaceStatusView) -> JsonView {
    let m = map!["phase"@ => JsonView::Text(s.phase.text())];
    let m = json::with(m, "conditions"@, conditions_of(s.conditions));
    let m = json::with(
        m,
        "observedGeneration"@,
        match s.observed_generation {
            Some(g) => Some(JsonView::Number(g as int)),
            None => None,
        },
    );
    JsonView::Object(json::with_text(m, "message"@, s.message))
}

/// The status of a workspace.
pub fn workspace_status_json(s: &WorkspaceStatus) -> (r: serde_json::Value)
    ensures
        json::contents(r) == workspace_status_of(s.deep_view()),
{
    let mut m = json::empty();
    json::put(&mut m, "phase", json::text(s.phase.name()));
    put_conditions(&mut m, &s.conditions);
    if let Some(g) = s.observed_generation {
        json::put(&mut m, "observedGeneration", json::number(g));
    }
    json::put_text(&mut m, "message", &s.message);
    json::object(m)
}

// ---------------------------------------------------------------------------------------------
// Laws
// ---------------------------------------------------------------------------------------------

/// The keys of a task's status are seven different ones.
proof fn lemma_status_keys_differ()
    ensures
        "phase"@.len() == 5,
        "calibandEndpoint"@.len() == 16,
        "sandboxRef"@.len() == 10 && "sandboxRef"@[0] == 's',
        "checkpointRef"@.len() == 13,
        "conditions"@.len() == 10 && "conditions"@[0] == 'c',
        "resolvedWorkspace"@.len() == 17 && "resolvedWorkspace"@[0] == 'r',
        "permissionPosture"@.len() == 17 && "permissionPosture"@[0] == 'p',
{
    reveal_strlit("phase");
    reveal_strlit("calibandEndpoint");
    reveal_strlit("sandboxRef");
    reveal_strlit("checkpointRef");
    reveal_strlit("conditions");
    reveal_strlit("resolvedWorkspace");
    reveal_strlit("permissionPosture");
}

/// A status is sent field by field: the phase always, and every other field exactly if it is set.
/// A cleared field is absent, so that the API server removes it.
pub proof fn law_unset_fields_are_left_out(s: CalibanTaskStatusView)
    ensures
        ({
            let j = task_status_of(s);
            &&& j.get("phase"@) == Some(JsonView::Text(s.phase.text()))
            &&& match s.caliband_endpoint {
                Some(e) => j.get("calibandEndpoint"@) == Some(JsonView::Text(e)),
                None => j.get("calibandEndpoint"@) is None,
            }
            &&& match s.sandbox_ref {
                Some(r) => j.get("sandboxRef"@) is Some && j.get("sandboxRef"@)->0.get("name"@)
                    == Some(JsonView::Text(r.name)),
                None => j.get("sandboxRef"@) is None,
            }
            &&& match s.checkpoint_ref {
                Some(c) => j.get("checkpointRef"@) == Some(JsonView::Text(c)),
                None => j.get("checkpointRef"@) is None,
            }
            &&& if s.conditions.len() == 0 {
                j.get("conditions"@) is None
            } else {
                j.get("conditions"@) == Some(
                    JsonView::List(s.conditions.map_values(|c: ConditionView| condition_of(c))),
                )
            }
            &&& match s.resolved_workspace {
                Some(rw) => j.get("resolvedWorkspace"@) == Some(resolved_of(rw)),
                None => j.get("resolvedWorkspace"@) is None,
            }
            &&& match s.permission_posture {
                Some(p) => j.get("permissionPosture"@) == Some(JsonView::Text(p.text())),
                None => j.get("permissionPosture"@) is None,
            }
        }),
{
    lemma_status_keys_differ();
}

/// A condition is sent with its type and its status, and with a reason and a message exactly if it
/// has them.
pub proof fn law_conditions_are_sent_in_full(c: ConditionView)
    ensures
        condition_of(c).get("type"@) == Some(JsonView::Text(c.type_)),
        condition_of(c).get("status"@) == Some(JsonView::Text(c.status)),
        condition_of(c).get("reason"@) == opt_text(c.reason),
        condition_of(c).get("message"@) == opt_text(c.message),
{
    reveal_strlit("type");
    reveal_strlit("status");
    reveal_strlit("reason");
    reveal_strlit("message");
    assert("type"@.len() == 4 && "status"@.len() == 6 && "reason"@.len() == 6 && "message"@.len()
        == 7 && "status"@[0] == 's' && "reason"@[0] == 'r');
}

/// A text to send, if there is one.
pub open spec fn opt_text(s: Option<Seq<char>>) -> Option<JsonView> {
    if s is Some {
        Some(JsonView::Text(s->0))
    } else {
        None
    }
}

/// A source is sent field by field, under the names that the API server knows.
pub proof fn law_sources_are_sent_in_full(x: SourceView)
    ensures
        source_of(x).get("name"@) == Some(JsonView::Text(x.name)),
        source_of(x).get("repo"@) == Some(JsonView::Text(x.repo)),
        source_of(x).get("ref"@) == Some(JsonView::Text(x.git_ref)),
        source_of(x).get("path"@) == Some(JsonView::Text(x.path)),
{
    reveal_strlit("name");
    reveal_strlit("repo");
    reveal_strlit("ref");
    reveal_strlit("path");
    assert("name"@.len() == 4 && "repo"@.len() == 4 && "ref"@.len() == 3 && "path"@.len() == 4
        && "name"@[0] == 'n' && "repo"@[0] == 'r' && "path"@[0] == 'p');
}

/// A provider is sent field by field; its credential is a reference, by the name of a Secret and of
/// a key in it.
pub proof fn law_providers_are_sent_in_full(p: ResolvedProviderView)
    ensures
        provider_of(p).get("name"@) == Some(JsonView::Text(p.name)),
        provider_of(p).get("kind"@) == Some(JsonView::Text(p.kind)),
        provider_of(p).get("baseUrl"@) == opt_text(p.base_url),
        provider_of(p).get("model"@) == opt_text(p.model),
        p.credentials_ref is None ==> provider_of(p).get("credentialsRef"@) is None,
        p.credentials_ref matches Some(c) ==> {
            let j = provider_of(p).get("credentialsRef"@);
            &&& j is Some
            &&& j->0.get("secretName"@) == Some(JsonView::Text(c.secret_name))
            &&& j->0.get("key"@) == Some(JsonView::Text(c.key))
        },
{
    reveal_strlit("name");
    reveal_strlit("kind");
    reveal_strlit("baseUrl");
    reveal_strlit("model");
    reveal_strlit("credentialsRef");
    reveal_strlit("secretName");
    reveal_strlit("key");
    assert("name"@.len() == 4 && "kind"@.len() == 4 && "baseUrl"@.len() == 7 && "model"@.len() == 5
        && "credentialsRef"@.len() == 14 && "secretName"@.len() == 10 && "key"@.len() == 3
        && "name"@[0] == 'n' && "kind"@[0] == 'k');
}

/// The rest of a pinned workspace is sent field by field: its environment, its isolation, its
/// egress rules with their ports, and its agent policy, each exactly if there is any.
pub proof fn law_pinned_workspaces_are_sent_in_full(rw: ResolvedWorkspaceView)
    ensures
        ({
            let j = resolved_of(rw);
            &&& j.get("sources"@) is Some && j.get("sources"@)->0 is List
            &&& j.get("sources"@)->0->List_0.len() == rw.sources.len()
            &&& forall|i: int|
                0 <= i < rw.sources.len() ==> #[trigger] j.get("sources"@)->0->List_0[i] == source_of(
                    rw.sources[i],
                )
            &&& j.get("provider"@) == Some(provider_of(rw.provider))
            &&& j.get("env"@) is None <==> rw.env.len() == 0
            &&& rw.env.len() > 0 ==> j.get("env"@)->0 is List && j.get("env"@)->0->List_0.len()
                == rw.env.len()
            &&& forall|i: int|
                0 <= i < rw.env.len() ==> {
                    let e = #[trigger] j.get("env"@)->0->List_0[i];
                    e.get("name"@) == Some(JsonView::Text(rw.env[i].name)) && e.get("value"@)
                        == Some(JsonView::Text(rw.env[i].value))
                }
            &&& j.get("isolation"@) is None <==> rw.isolation is None
            &&& rw.isolation matches Some(x) ==> j.get("isolation"@)->0.get("runtimeClass"@)
                == opt_text(x.runtime_class) && j.get("isolation"@)->0.get("worktrees"@) == opt_text(
                x.worktrees,
            )
            &&& j.get("egress"@) is None <==> rw.egress is None
            &&& j.get("agentPolicy"@) is None <==> rw.agent_policy is None
            &&& rw.agent_policy matches Some(p) ==> j.get("agentPolicy"@)->0.get(
                "allowUnattended"@,
            ) == Some(JsonView::Bool(p.allow_unattended))
        }),
        rw.egress matches Some(e) ==> {
            let allow = resolved_of(rw).get("egress"@)->0.get("allow"@);
            &&& allow is Some && allow->0 is List
            &&& allow->0->List_0.len() == e.allow.len()
            &&& forall|i: int|
                0 <= i < e.allow.len() ==> #[trigger] allow->0->List_0[i] == egress_rule_of(
                    e.allow[i],
                )
        },
{
    reveal_strlit("sources");
    reveal_strlit("provider");
    reveal_strlit("env");
    reveal_strlit("isolation");
    reveal_strlit("egress");
    reveal_strlit("agentPolicy");
    reveal_strlit("name");
    reveal_strlit("value");
    reveal_strlit("runtimeClass");
    reveal_strlit("worktrees");
    assert("sources"@.len() == 7 && "provider"@.len() == 8 && "env"@.len() == 3 && "isolation"@.len()
        == 9 && "egress"@.len() == 6 && "agentPolicy"@.len() == 11);
    assert("name"@.len() == 4 && "value"@.len() == 5 && "runtimeClass"@.len() == 12
        && "worktrees"@.len() == 9);
    let j = resolved_of(rw);
    assert forall|i: int| 0 <= i < rw.env.len() implies {
        let e = #[trigger] j.get("env"@)->0->List_0[i];
        e.get("name"@) == Some(JsonView::Text(rw.env[i].name)) && e.get("value"@) == Some(
            JsonView::Text(rw.env[i].value),
        )
    } by {
        assert(j.get("env"@)->0->List_0[i] == env_entry_of(rw.env[i]));
    }
}

/// An egress rule is sent with its block, and with its ports exactly if it lists any.
pub proof fn law_egress_rules_are_sent_in_full(r: EgressRuleView)
    ensures
        egress_rule_of(r).get("cidr"@) == Some(JsonView::Text(r.cidr)),
        egress_rule_of(r).get("ports"@) is None <==> r.ports.len() == 0,
        r.ports.len() > 0 ==> egress_rule_of(r).get("ports"@)->0 is List && egress_rule_of(r).get(
            "ports"@,
        )->0->List_0.len() == r.ports.len(),
        forall|i: int|
            0 <= i < r.ports.len() ==> #[trigger] egress_rule_of(r).get("ports"@)->0->List_0[i]
                == JsonView::Number(r.ports[i] as int),
{
    reveal_strlit("cidr");
    reveal_strlit("ports");
    assert("cidr"@.len() == 4 && "ports"@.len() == 5);
}

/// The status of a workspace is sent field by field, each but the phase exactly if it is set.
pub proof fn law_workspace_statuses_are_sent_in_full(s: WorkspaceStatusView)
    ensures
        ({
            let j = workspace_status_of(s);
            &&& j.get("phase"@) == Some(JsonView::Text(s.phase.text()))
            &&& j.get("message"@) == opt_text(s.message)
            &&& match s.observed_generation {
                Some(g) => j.get("observedGeneration"@) == Some(JsonView::Number(g as int)),
                None => j.get("observedGeneration"@) is None,
            }
            &&& j.get("conditions"@) is None <==> s.conditions.len() == 0
            &&& s.conditions.len() > 0 ==> j.get("conditions"@)->0 is List && j.get(
                "conditions"@,
            )->0->List_0.len() == s.conditions.len()
            &&& forall|i: int|
                0 <= i < s.conditions.len() ==> #[trigger] j.get("conditions"@)->0->List_0[i]
                    == condition_of(s.conditions[i])
        }),
{
    reveal_strlit("phase");
    reveal_strlit("conditions");
    reveal_strlit("observedGeneration");
    reveal_strlit("message");
    assert("phase"@.len() == 5 && "conditions"@.len() == 10 && "observedGeneration"@.len() == 18
        && "message"@.len() == 7);
}

/// Two statuses that are sent as the same value are the same in what is sent: nothing of a status
/// is lost on the way.
pub proof fn law_statuses_are_told_apart(a: CalibanTaskStatusView, b: CalibanTaskStatusView)
    requires
        task_status_of(a) == task_status_of(b),
    ensures
        a.phase == b.phase,
        a.caliband_endpoint == b.caliband_endpoint,
        a.sandbox_ref is Some == b.sandbox_ref is Some,
        a.sandbox_ref is Some ==> a.sandbox_ref->0.name == b.sandbox_ref->0.name,
        a.checkpoint_ref == b.checkpoint_ref,
        a.conditions.len() == b.conditions.len(),
        a.resolved_workspace is Some == b.resolved_workspace is Some,
        a.permission_posture == b.permission_posture,
{
    law_unset_fields_are_left_out(a);
    law_unset_fields_are_left_out(b);
    law_names(a.phase, b.phase);
    law_posture_names();
    let f = |c: ConditionView| condition_of(c);
    if a.conditions.len() > 0 && b.conditions.len() > 0 {
        assert(a.conditions.map_values(f).len() == a.conditions.len());
        assert(b.conditions.map_values(f).len() == b.conditions.len());
    }
}

/// The phases go by their own names, and no two by the same.
pub proof fn law_names(a: Phase, b: Phase)
    ensures
        Phase::Pending.text() == "Pending"@,
        Phase::Provisioning.text() == "Provisioning"@,
        Phase::Running.text() == "Running"@,
        Phase::Draining.text() == "Draining"@,
        Phase::Completed.text() == "Completed"@,
        Phase::Failed.text() == "Failed"@,
        a.text() == b.text() ==> a == b,
        WorkspacePhase::Pending.text() == "Pending"@,
        WorkspacePhase::Ready.text() == "Ready"@,
        WorkspacePhase::Failed.text() == "Failed"@,
{
    reveal_strlit("Pending");
    reveal_strlit("Provisioning");
    reveal_strlit("Running");
    reveal_strlit("Draining");
    reveal_strlit("Completed");
    reveal_strlit("Failed");
    assert("Pending"@.len() == 7 && "Provisioning"@.len() == 12 && "Running"@.len() == 7
        && "Draining"@.len() == 8 && "Completed"@.len() == 9 && "Failed"@.len() == 6
        && "Pending"@[0] == 'P' && "Running"@[0] == 'R');
}

/// The postures go by their own names.
pub proof fn law_posture_names()
    ensures
        PermissionPosture::Supervised.text() == "supervised"@,
        PermissionPosture::Unattended.text() == "unattended"@,
        "supervised"@ != "unattended"@,
{
    reveal_strlit("supervised");
    reveal_strlit("unattended");
    assert("supervised"@[0] == 's' && "unattended"@[0] == 'u');
}

/// Nothing is sent under any other name.
pub proof fn law_nothing_else_is_sent(
    s: CalibanTaskStatusView,
    w: WorkspaceStatusView,
    c: ConditionView,
    p: ResolvedProviderView,
    rw: ResolvedWorkspaceView,
    key: Seq<char>,
)
    ensures
        task_status_of(s).get(key) is Some ==> key == "phase"@ || key == "calibandEndpoint"@ || key
            == "sandboxRef"@ || key == "checkpointRef"@ || key == "conditions"@ || key
            == "resolvedWorkspace"@ || key == "permissionPosture"@,
        workspace_status_of(w).get(key) is Some ==> key == "phase"@ || key == "conditions"@ || key
            == "observedGeneration"@ || key == "message"@,
        condition_of(c).get(key) is Some ==> key == "type"@ || key == "status"@ || key == "reason"@
            || key == "message"@,
        provider_of(p).get(key) is Some ==> key == "name"@ || key == "kind"@ || key == "baseUrl"@
            || key == "model"@ || key == "credentialsRef"@,
        resolved_of(rw).get(key) is Some ==> key == "sources"@ || key == "provider"@ || key
            == "env"@ || key == "isolation"@ || key == "egress"@ || key == "agentPolicy"@,
{
}

} // verus!
