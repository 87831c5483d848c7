//! The `CalibanTask` controller: what a reconcile decides, from the observed task to the objects it
//! applies, the status it writes and the time it looks again.

use vstd::prelude::*;

use crate::config::{sandbox_name, Settings, SettingsView};
use crate::crd::{
    CalibanTask, CalibanTaskStatus, CalibanTaskStatusView, CalibanTaskView, Condition,
    ConditionView, NamedRef, NamedRefView, Phase, API_VERSION, TASK_KIND,
};
use crate::json;
use crate::json::JsonView;
use crate::sandbox::{Sandbox, SandboxView};
use crate::text;
use crate::wire;
use crate::workspace;
use crate::workspace::{
    resolve_workspace, ResolvedWorkspace, ResolvedWorkspaceView, Workspace, WorkspacePhase,
    WorkspaceView,
};

verus! {

/// Periodic re-reconcile interval, in seconds. The controller watches the Sandboxes it owns, so a
/// Sandbox status change triggers the task's reconcile immediately; this timer is only a safety net
/// against missed events.
pub const RESYNC: u64 = 300;

/// Seconds until a task is looked at again whose workspace is not ready yet.
pub const PENDING_REQUEUE: u64 = 10;

/// Seconds until a task is looked at again that something else than the task has to change for.
pub const FAILED_REQUEUE: u64 = 30;

/// Seconds until a reconcile that failed is tried again.
pub const ERROR_REQUEUE: u64 = 30;

// ---------------------------------------------------------------------------------------------
// Conditions
// ---------------------------------------------------------------------------------------------

/// The first condition of that type.
pub open spec fn condition_at(cs: Seq<ConditionView>, type_: Seq<char>) -> Option<ConditionView>
    decreases cs.len(),
{
    if cs.len() == 0 {
        None
    } else if cs[0].type_ == type_ {
        Some(cs[0])
    } else {
        condition_at(cs.drop_first(), type_)
    }
}

/// The first condition of that type.
fn find_condition<'a>(cs: &'a Vec<Condition>, type_: &str) -> (r: Option<&'a Condition>)
    ensures
        r.deep_view() == condition_at(cs.deep_view(), type_@),
{
    let ghost all = cs.deep_view();
    let mut i: usize = 0;
    assert(all.skip(0) =~= all);
    while i < cs.len()
        invariant
            i <= cs.len(),
            all == cs.deep_view(),
            condition_at(all, type_@) == condition_at(all.skip(i as int), type_@),
        decreases cs.len() - i,
    {
        assert(all.skip(i as int)[0] == cs@[i as int].deep_view());
        if text::same(cs[i].type_.as_str(), type_) {
            return Some(&cs[i]);
        }
        assert(all.skip(i as int).drop_first() =~= all.skip(i + 1));
        i = i + 1;
    }
    None
}

/// The conditions that the operator owns on a task's status: `Ready`. Any other entry belongs to
/// another field manager.
pub open spec fn operator_conditions(cs: Seq<ConditionView>) -> Seq<ConditionView>
    decreases cs.len(),
{
    if cs.len() == 0 {
        Seq::empty()
    } else if cs.last().type_ == "Ready"@ {
        operator_conditions(cs.drop_last()).push(cs.last())
    } else {
        operator_conditions(cs.drop_last())
    }
}

/// The conditions that the operator owns.
fn own_conditions(cs: &Vec<Condition>) -> (r: Vec<Condition>)
    ensures
        r.deep_view() == operator_conditions(cs.deep_view()),
{
    let ghost all = cs.deep_view();
    let mut r: Vec<Condition> = Vec::new();
    let mut i: usize = 0;
    assert(r.deep_view() =~= operator_conditions(all.take(0)));
    while i < cs.len()
        invariant
            i <= cs.len(),
            all == cs.deep_view(),
            r.deep_view() == operator_conditions(all.take(i as int)),
        decreases cs.len() - i,
    {
        let ghost before = r.deep_view();
        assert(all.take(i + 1).drop_last() =~= all.take(i as int));
        assert(all.take(i + 1).last() == cs@[i as int].deep_view());
        if text::same(cs[i].type_.as_str(), "Ready") {
            r.push(cs[i].clone());
            assert(r.deep_view() =~= before.push(all[i as int]));
        }
        i = i + 1;
    }
    assert(all.take(i as int) =~= all);
    r
}

/// Whether two conditions are the same.
fn same_condition(a: &Condition, b: &Condition) -> (r: bool)
    ensures
        r == (a.deep_view() == b.deep_view()),
{
    text::same(a.type_.as_str(), b.type_.as_str()) && text::same(
        a.status.as_str(),
        b.status.as_str(),
    ) && text::same_opt(&a.reason, &b.reason) && text::same_opt(&a.message, &b.message)
}

/// Whether two lists of conditions are the same.
fn same_conditions(a: &Vec<Condition>, b: &Vec<Condition>) -> (r: bool)
    ensures
        r == (a.deep_view() == b.deep_view()),
{
    assert(a.deep_view().len() == a.len() && b.deep_view().len() == b.len());
    if a.len() != b.len() {
        return false;
    }
    let mut i: usize = 0;
    while i < a.len()
        invariant
            i <= a.len() == b.len(),
            forall|k: int| 0 <= k < i ==> a.deep_view()[k] == #[trigger] b.deep_view()[k],
        decreases a.len() - i,
    {
        if !same_condition(&a[i], &b[i]) {
            assert(a.deep_view()[i as int] != b.deep_view()[i as int]);
            return false;
        }
        assert(a.deep_view()[i as int] == b.deep_view()[i as int]);
        i = i + 1;
    }
    assert(a.deep_view() =~= b.deep_view());
    true
}

/// Whether two statuses agree in what the operator derives. Only its own conditions count: another
/// manager's entry on the observed status would otherwise make every reconcile write.
pub open spec fn same_status(a: CalibanTaskStatusView, b: CalibanTaskStatusView) -> bool {
    &&& a.phase == b.phase
    &&& a.caliband_endpoint == b.caliband_endpoint
    &&& a.sandbox_ref == b.sandbox_ref
    &&& operator_conditions(a.conditions) == operator_conditions(b.conditions)
}

/// Whether two statuses agree in what the operator derives.
fn status_eq(a: &CalibanTaskStatus, b: &CalibanTaskStatus) -> (r: bool)
    ensures
        r == same_status(a.deep_view(), b.deep_view()),
{
    let same_ref = match (&a.sandbox_ref, &b.sandbox_ref) {
        (Some(x), Some(y)) => text::same(x.name.as_str(), y.name.as_str()),
        (None, None) => true,
        _ => false,
    };
    a.phase == b.phase && text::same_opt(&a.caliband_endpoint, &b.caliband_endpoint) && same_ref
        && same_conditions(&own_conditions(&a.conditions), &own_conditions(&b.conditions))
}

// ---------------------------------------------------------------------------------------------
// The status of a provisioned task
// ---------------------------------------------------------------------------------------------

/// The `Ready` condition that a Sandbox reports, if it reports one.
pub open spec fn sandbox_ready(sandbox: Option<SandboxView>) -> Option<ConditionView> {
    match sandbox {
        Some(sb) => match sb.status {
            Some(st) => condition_at(st.conditions, "Ready"@),
            None => None,
        },
        None => None,
    }
}

/// The DNS name of a Sandbox's Service, if it has one yet.
pub open spec fn sandbox_fqdn(sandbox: Option<SandboxView>) -> Option<Seq<char>> {
    match sandbox {
        Some(sb) => match sb.status {
            Some(st) => st.service_fqdn,
            None => None,
        },
        None => None,
    }
}

/// Whether the Sandbox is up: it has a name to be dialed by, and reports itself ready. The name
/// alone is no evidence: it is there before caliband has bound its port.
pub open spec fn sandbox_up(sandbox: Option<SandboxView>) -> bool {
    &&& sandbox_fqdn(sandbox) is Some
    &&& sandbox_ready(sandbox) matches Some(c) && c.status == "True"@
}

/// The phase that the Sandbox alone gives.
pub open spec fn infrastructure_phase(sandbox: Option<SandboxView>) -> Phase {
    if sandbox is None {
        Phase::Pending
    } else if sandbox_up(sandbox) {
        Phase::Running
    } else {
        Phase::Provisioning
    }
}

/// What has been reported of the task's agents, if they have settled.
pub open spec fn settled(t: CalibanTaskView) -> Option<ConditionView> {
    match t.status {
        Some(st) => match condition_at(st.conditions, "AgentsSettled"@) {
            Some(c) => if c.status == "True"@ {
                Some(c)
            } else {
                None
            },
            None => None,
        },
        None => None,
    }
}

/// The phase of a task: agents that have settled decide it, and otherwise the Sandbox does.
pub open spec fn phase_of(t: CalibanTaskView, sandbox: Option<SandboxView>) -> Phase {
    match settled(t) {
        Some(c) => if c.reason == Some("Succeeded"@) {
            Phase::Completed
        } else if c.reason == Some("Failed"@) {
            Phase::Failed
        } else {
            infrastructure_phase(sandbox)
        },
        None => infrastructure_phase(sandbox),
    }
}

/// A `Ready` condition.
pub open spec fn ready_condition(
    status: Seq<char>,
    reason: Seq<char>,
    message: Option<Seq<char>>,
) -> ConditionView {
    ConditionView { type_: "Ready"@, status, reason: Some(reason), message }
}

/// The conditions of a task in that phase.
pub open spec fn conditions_for(
    phase: Phase,
    sb_ready: Option<ConditionView>,
    settled: Option<ConditionView>,
) -> Seq<ConditionView> {
    match phase {
        Phase::Running => seq![ready_condition("True"@, "Running"@, None)],
        Phase::Provisioning => match sb_ready {
            Some(c) => if c.status != "True"@ {
                seq![ready_condition("False"@, "SandboxNotReady"@, c.message)]
            } else {
                Seq::empty()
            },
            None => Seq::empty(),
        },
        Phase::Completed => seq![ready_condition("False"@, "Completed"@, None)],
        Phase::Failed => seq![
            ready_condition(
                "False"@,
                "AgentsFailed"@,
                match settled {
                    Some(c) => match c.message {
                        Some(m) => Some(m),
                        None => Some("one or more agents failed or crashed"@),
                    },
                    None => Some("one or more agents failed or crashed"@),
                },
            ),
        ],
        _ => Seq::empty(),
    }
}

/// Where the task's caliband can be dialed, if its Sandbox is up.
pub open spec fn endpoint_of(sandbox: Option<SandboxView>, s: SettingsView) -> Option<Seq<char>> {
    if sandbox_up(sandbox) {
        Some(sandbox_fqdn(sandbox)->0 + ":"@ + text::decimal_int(s.caliband_port as int))
    } else {
        None
    }
}

/// The observed status of a task, or the initial one.
pub open spec fn observed(t: CalibanTaskView) -> CalibanTaskStatusView {
    match t.status {
        Some(st) => st,
        None => CalibanTaskStatusView::initial(),
    }
}

/// The status of a task whose Sandbox is in the given state. What the operator does not derive
/// stays as it was observed.
pub open spec fn next_status(
    t: CalibanTaskView,
    sandbox: Option<SandboxView>,
    s: SettingsView,
) -> CalibanTaskStatusView {
    CalibanTaskStatusView {
        phase: phase_of(t, sandbox),
        caliband_endpoint: endpoint_of(sandbox, s),
        sandbox_ref: match sandbox {
            Some(_) => Some(NamedRefView { name: t.sandbox_name() }),
            None => None,
        },
        conditions: conditions_for(phase_of(t, sandbox), sandbox_ready(sandbox), settled(t)),
        ..observed(t)
    }
}

/// The status to write for a task, if it differs from the observed one.
pub open spec fn derived_status(
    t: CalibanTaskView,
    sandbox: Option<SandboxView>,
    s: SettingsView,
) -> Option<CalibanTaskStatusView> {
    match t.status {
        Some(cur) => if same_status(cur, next_status(t, sandbox, s)) {
            None
        } else {
            Some(next_status(t, sandbox, s))
        },
        None => Some(next_status(t, sandbox, s)),
    }
}

/// What has been reported of the task's agents, if they have settled.
fn settled_condition(t: &CalibanTask) -> (r: Option<&Condition>)
    ensures
        r.deep_view() == settled(t.deep_view()),
{
    match &t.status {
        Some(st) => match find_condition(&st.conditions, "AgentsSettled") {
            Some(c) => if text::same(c.status.as_str(), "True") {
                Some(c)
            } else {
                None
            },
            None => None,
        },
        None => None,
    }
}

/// A `Ready` condition.
fn ready(status: &str, reason: &str, message: Option<String>) -> (r: Condition)
    ensures
        r.deep_view() == ready_condition(status@, reason@, message.deep_view()),
{
    Condition {
        type_: "Ready".to_string(),
        status: status.to_string(),
        reason: Some(reason.to_string()),
        message,
    }
}

/// Whether an optional string is the given one.
fn is_reason(reason: &Option<String>, x: &str) -> (r: bool)
    ensures
        r == (reason.deep_view() == Some(x@)),
{
    match reason {
        Some(s) => text::same(s.as_str(), x),
        None => false,
    }
}

/// The conditions of a task in that phase.
fn derive_conditions(
    phase: Phase,
    sb_ready: Option<&Condition>,
    settled: Option<&Condition>,
) -> (r: Vec<Condition>)
    ensures
        r.deep_view() == conditions_for(phase, sb_ready.deep_view(), settled.deep_view()),
{
    let mut r: Vec<Condition> = Vec::new();
    match phase {
        Phase::Running => {
            r.push(ready("True", "Running", None));
        },
        Phase::Provisioning => {
            if let Some(c) = sb_ready {
                if !text::same(c.status.as_str(), "True") {
                    r.push(ready("False", "SandboxNotReady", c.message.clone()));
                }
            }
        },
        Phase::Completed => {
            r.push(ready("False", "Completed", None));
        },
        Phase::Failed => {
            let fallback = "one or more agents failed or crashed".to_string();
            let message = match settled {
                Some(c) => match &c.message {
                    Some(m) => m.clone(),
                    None => fallback,
                },
                None => fallback,
            };
            r.push(ready("False", "AgentsFailed", Some(message)));
        },
        _ => {},
    }
    assert(r.deep_view() =~= conditions_for(phase, sb_ready.deep_view(), settled.deep_view()));
    r
}

/// The status of a task whose Sandbox is in the given state.
pub fn status_after(t: &CalibanTask, sandbox: Option<&Sandbox>, s: &Settings) -> (r: CalibanTaskStatus)
    ensures
        r.deep_view() == next_status(t.deep_view(), sandbox.deep_view(), s.deep_view()),
{
    let sb_ready = match sandbox {
        Some(sb) => match &sb.status {
            Some(st) => find_condition(&st.conditions, "Ready"),
            None => None,
        },
        None => None,
    };
    let ready = match sb_ready {
        Some(c) => text::same(c.status.as_str(), "True"),
        None => false,
    };
    let endpoint = match sandbox {
        Some(sb) => match &sb.status {
            Some(st) => match &st.service_fqdn {
                Some(f) if ready => Some(
                    f.clone().concat(":").concat(
                        text::decimal_of(s.caliband_port as i64).as_str(),
                    ),
                ),
                _ => None,
            },
            None => None,
        },
        None => None,
    };
    let infrastructure = if sandbox.is_none() {
        Phase::Pending
    } else if endpoint.is_some() {
        Phase::Running
    } else {
        Phase::Provisioning
    };
    let settled = settled_condition(t);
    let phase = match settled {
        Some(c) => if is_reason(&c.reason, "Succeeded") {
            Phase::Completed
        } else if is_reason(&c.reason, "Failed") {
            Phase::Failed
        } else {
            infrastructure
        },
        None => infrastructure,
    };
    let mut next = match &t.status {
        Some(st) => st.clone(),
        None => CalibanTaskStatus::default(),
    };
    next.phase = phase;
    next.caliband_endpoint = endpoint;
    next.sandbox_ref =
    match sandbox {
        Some(_) => Some(NamedRef { name: sandbox_name(t) }),
        None => None,
    };
    next.conditions = derive_conditions(phase, sb_ready, settled);
    next
}

/// Derives the `CalibanTask` status from the task and its backing Sandbox. Returns
/// `Some(new_status)` only when it differs from the observed status, else `None`.
///
/// The Sandbox's own `Ready` condition, not its DNS name, is what makes a task `Running`. A task
/// whose agents have settled is in a terminal phase whatever the Sandbox does. The `Ready` condition
/// is derived afresh from the phase, so that nothing stale survives.
pub fn derive_status(t: &CalibanTask, sandbox: Option<&Sandbox>, s: &Settings) -> (r: Option<
    CalibanTaskStatus,
>)
    ensures
        r.deep_view() == derived_status(t.deep_view(), sandbox.deep_view(), s.deep_view()),
{
    let next = status_after(t, sandbox, s);
    if let Some(cur) = &t.status {
        if status_eq(cur, &next) {
            return None;
        }
    }
    Some(next)
}

// ---------------------------------------------------------------------------------------------
// The status of a task that cannot be provisioned
// ---------------------------------------------------------------------------------------------

/// The status of a task that cannot be provisioned.
pub open spec fn failure_of(reason: Seq<char>, message: Seq<char>) -> CalibanTaskStatusView {
    CalibanTaskStatusView {
        phase: Phase::Failed,
        conditions: seq![ready_condition("False"@, reason, Some(message))],
        ..CalibanTaskStatusView::initial()
    }
}

/// The failure to write for a task, if it is not recorded yet.
pub open spec fn derived_failure(t: CalibanTaskView, reason: Seq<char>, message: Seq<char>) -> Option<
    CalibanTaskStatusView,
> {
    match t.status {
        Some(cur) => if same_status(cur, failure_of(reason, message)) {
            None
        } else {
            Some(failure_of(reason, message))
        },
        None => Some(failure_of(reason, message)),
    }
}

/// Status for a task that cannot be provisioned: `Failed` with a `Ready=False` condition carrying
/// `reason` and a human-readable `message`. Returns `None` when the observed status already records
/// this exact failure, so that a permanently failed task is not written on every reconcile.
pub fn derive_failed_status(t: &CalibanTask, reason: &str, message: &str) -> (r: Option<
    CalibanTaskStatus,
>)
    ensures
        r.deep_view() == derived_failure(t.deep_view(), reason@, message@),
{
    let conditions = vec![ready("False", reason, Some(message.to_string()))];
    assert(conditions.deep_view() =~= seq![ready_condition("False"@, reason@, Some(message@))]);
    let mut next = CalibanTaskStatus::default();
    next.phase = Phase::Failed;
    next.conditions = conditions;
    if let Some(cur) = &t.status {
        if status_eq(cur, &next) {
            return None;
        }
    }
    Some(next)
}

/// The server-side apply body for a task's status: a partial object that names its type and carries
/// the operator's status fields.
pub open spec fn apply_body_of(status: CalibanTaskStatusView) -> JsonView {
    JsonView::Object(
        map![
            "apiVersion"@ => JsonView::Text(API_VERSION@),
            "kind"@ => JsonView::Text(TASK_KIND@),
            "status"@ => wire::task_status_of(status),
        ],
    )
}

/// The server-side apply body for a `CalibanTask`'s status: a partial object that names its type and
/// carries the operator's status fields. A field that it leaves out is released, and so removed.
pub fn status_apply_body(status: &CalibanTaskStatus) -> (r: serde_json::Value)
    ensures
        json::contents(r) == apply_body_of(status.deep_view()),
{
    let mut m = json::empty();
    json::put(&mut m, "apiVersion", json::text(API_VERSION));
    json::put(&mut m, "kind", json::text(TASK_KIND));
    json::put(&mut m, "status", wire::task_status_json(status));
    json::object(m)
}

// ---------------------------------------------------------------------------------------------
// Admission
// ---------------------------------------------------------------------------------------------

/// Admission decision for a `CalibanTask` against its referenced `Workspace`, taken once before
/// pinning.
pub enum Admission {
    /// The workspace is `Ready` and resolves cleanly: pin this configuration.
    Pin(Box<ResolvedWorkspace>),
    /// The workspace exists but isn't `Ready` yet: don't pin, and look again once its own
    /// controller has validated it.
    Requeue,
    /// Terminal task-configuration error: a missing workspace, a `Failed` workspace, or an
    /// unresolvable provider. The string is the human-readable reason.
    Fail(String),
}

/// What an [`Admission`] holds.
#[verifier::ext_equal]
pub enum AdmissionView {
    Pin(ResolvedWorkspaceView),
    Requeue,
    Fail(Seq<char>),
}

impl DeepView for Admission {
    type V = AdmissionView;

    open spec fn deep_view(&self) -> AdmissionView {
        match self {
            Admission::Pin(rw) => AdmissionView::Pin((**rw).deep_view()),
            Admission::Requeue => AdmissionView::Requeue,
            Admission::Fail(reason) => AdmissionView::Fail(reason@),
        }
    }
}

/// The phase that a workspace's own controller has given it.
pub open spec fn workspace_phase(w: WorkspaceView) -> WorkspacePhase {
    match w.status {
        Some(st) => st.phase,
        None => WorkspacePhase::Pending,
    }
}

/// Whether a task may be pinned to its workspace and provider.
pub open spec fn admission_of(
    ws: Option<WorkspaceView>,
    provider_ref: Option<Seq<char>>,
    workspace_ref: Seq<char>,
) -> AdmissionView {
    match ws {
        None => AdmissionView::Fail("Workspace not found: '"@ + workspace_ref + "'"@),
        Some(w) => match workspace_phase(w) {
            WorkspacePhase::Failed => AdmissionView::Fail(
                "workspace '"@ + workspace_ref + "' not ready: "@ + (match w.status {
                    Some(st) => match st.message {
                        Some(m) => m,
                        None => "validation failed"@,
                    },
                    None => "validation failed"@,
                }),
            ),
            WorkspacePhase::Ready => match workspace::resolve(w.spec, provider_ref) {
                Ok(rw) => AdmissionView::Pin(rw),
                Err(reason) => AdmissionView::Fail(reason),
            },
            WorkspacePhase::Pending => AdmissionView::Requeue,
        },
    }
}

/// Decides whether a `CalibanTask` may pin its workspace and provider. Gates on the referenced
/// `Workspace`'s readiness, so that a task never launches a doomed pod against a `Failed` workspace
/// nor pins against a not-yet-validated one.
pub fn admit_task(ws: Option<&Workspace>, provider_ref: Option<&str>, workspace_ref_name: &str) -> (r:
    Admission)
    ensures
        r.deep_view() == admission_of(ws.deep_view(), provider_ref.deep_view(), workspace_ref_name@),
{
    let w = match ws {
        Some(w) => w,
        None => return Admission::Fail(
            "Workspace not found: '".to_string().concat(workspace_ref_name).concat("'"),
        ),
    };
    let phase = match &w.status {
        Some(st) => st.phase,
        None => WorkspacePhase::Pending,
    };
    match phase {
        WorkspacePhase::Failed => {
            let detail = match &w.status {
                Some(st) => match &st.message {
                    Some(m) => m.clone(),
                    None => "validation failed".to_string(),
                },
                None => "validation failed".to_string(),
            };
            Admission::Fail(
                "workspace '".to_string().concat(workspace_ref_name).concat("' not ready: ").concat(
                    detail.as_str(),
                ),
            )
        },
        WorkspacePhase::Ready => match resolve_workspace(&w.spec, provider_ref) {
            Ok(rw) => Admission::Pin(Box::new(rw)),
            Err(reason) => Admission::Fail(reason),
        },
        WorkspacePhase::Pending => Admission::Requeue,
    }
}

// ---------------------------------------------------------------------------------------------
// Laws
// ---------------------------------------------------------------------------------------------

/// A task runs exactly if its Sandbox is up and its agents have not settled for good; it has an
/// endpoint exactly if its Sandbox is up.
pub proof fn law_running(t: CalibanTaskView, sandbox: Option<SandboxView>, s: SettingsView)
    ensures
        ({
            let next = next_status(t, sandbox, s);
            let terminal = settled(t) matches Some(c) && (c.reason == Some("Succeeded"@)
                || c.reason == Some("Failed"@));
            &&& next.phase == Phase::Running <==> sandbox_up(sandbox) && !terminal
            &&& next.caliband_endpoint is Some <==> sandbox_up(sandbox)
            &&& next.sandbox_ref is Some <==> sandbox is Some
        }),
{
}

/// Agents that have settled decide the phase, whatever the Sandbox does.
pub proof fn law_settled_is_terminal(
    t: CalibanTaskView,
    a: Option<SandboxView>,
    b: Option<SandboxView>,
)
    requires
        settled(t) is Some,
    ensures
        settled(t)->0.reason == Some("Succeeded"@) ==> phase_of(t, a) == Phase::Completed
            && phase_of(t, b) == Phase::Completed,
        settled(t)->0.reason == Some("Failed"@) ==> phase_of(t, a) == Phase::Failed && phase_of(t, b)
            == Phase::Failed,
{
    reveal_strlit("Succeeded");
    reveal_strlit("Failed");
    assert("Succeeded"@.len() != "Failed"@.len());
}

/// No phase is derived that only a teardown could explain, and without a Sandbox nothing runs.
pub proof fn law_phase_range(t: CalibanTaskView, sandbox: Option<SandboxView>)
    ensures
        phase_of(t, sandbox) != Phase::Draining,
        sandbox is None ==> phase_of(t, sandbox) != Phase::Running && phase_of(t, sandbox)
            != Phase::Provisioning,
{
}

/// Whether each condition is one that the operator owns.
pub open spec fn only_own_conditions(cs: Seq<ConditionView>) -> bool {
    forall|i: int| 0 <= i < cs.len() ==> (#[trigger] cs[i]).type_ == "Ready"@
}

/// Whether no condition is one that the operator owns.
pub open spec fn no_own_conditions(cs: Seq<ConditionView>) -> bool {
    forall|i: int| 0 <= i < cs.len() ==> (#[trigger] cs[i]).type_ != "Ready"@
}

/// A status that is written never carries another manager's condition: writing it could take
/// that condition away from its owner.
pub proof fn law_only_own_conditions_are_written(
    t: CalibanTaskView,
    sandbox: Option<SandboxView>,
    s: SettingsView,
    reason: Seq<char>,
    message: Seq<char>,
)
    ensures
        only_own_conditions(next_status(t, sandbox, s).conditions),
        only_own_conditions(failure_of(reason, message).conditions),
{
}

/// Filtering keeps what is the operator's own, and drops the rest.
proof fn lemma_operator_conditions(a: Seq<ConditionView>, b: Seq<ConditionView>)
    requires
        only_own_conditions(a),
        no_own_conditions(b),
    ensures
        operator_conditions(a + b) == a,
    decreases a.len() + b.len(),
{
    let all = a + b;
    if b.len() > 0 {
        assert(all.drop_last() =~= a + b.drop_last());
        assert(all.last() == b[b.len() - 1]);
        assert forall|i: int| 0 <= i < b.drop_last().len() implies (
        #[trigger] b.drop_last()[i]).type_ != "Ready"@ by {
            assert(b.drop_last()[i] == b[i]);
        }
        lemma_operator_conditions(a, b.drop_last());
    } else if a.len() > 0 {
        assert(all =~= a);
        assert(a.drop_last() + b =~= a.drop_last());
        assert forall|i: int| 0 <= i < a.drop_last().len() implies (
        #[trigger] a.drop_last()[i]).type_ == "Ready"@ by {
            assert(a.drop_last()[i] == a[i]);
        }
        lemma_operator_conditions(a.drop_last(), b);
        assert(a[a.len() - 1].type_ == "Ready"@);
        assert(a =~= a.drop_last().push(a.last()));
    } else {
        assert(all =~= a);
    }
}

/// The conditions that the operator owns are those of type `Ready`, in their order.
pub proof fn law_own_conditions_are_the_ready_ones(cs: Seq<ConditionView>)
    ensures
        operator_conditions(cs) == cs.filter(|c: ConditionView| c.type_ == "Ready"@),
    decreases cs.len(),
{
    reveal(Seq::filter);
    if cs.len() > 0 {
        law_own_conditions_are_the_ready_ones(cs.drop_last());
    }
}

/// A condition of another type does not count, wherever it stands: with it or without it, the
/// operator owns the same conditions.
pub proof fn law_other_conditions_do_not_count(cs: Seq<ConditionView>, at: int, c: ConditionView)
    requires
        0 <= at <= cs.len(),
        c.type_ != "Ready"@,
    ensures
        operator_conditions(cs.insert(at, c)) == operator_conditions(cs),
    decreases cs.len(),
{
    let with = cs.insert(at, c);
    if at == cs.len() {
        assert(with.drop_last() =~= cs);
    } else {
        assert(with.drop_last() =~= cs.drop_last().insert(at, c));
        assert(with.last() == cs.last());
        law_other_conditions_do_not_count(cs.drop_last(), at, c);
    }
}

/// Statuses are compared by what the operator derives and by nothing else. What a status is pinned
/// to, its checkpoint, its posture and the conditions of other types may change without a
/// difference, to that status and to any other. The comparison has no direction, and it fails
/// wherever phase, endpoint, sandbox or the `Ready` conditions differ.
pub proof fn law_statuses_are_compared_by_what_is_derived(
    a: CalibanTaskStatusView,
    a2: CalibanTaskStatusView,
    b: CalibanTaskStatusView,
)
    requires
        a2 == (CalibanTaskStatusView {
            resolved_workspace: a2.resolved_workspace,
            checkpoint_ref: a2.checkpoint_ref,
            permission_posture: a2.permission_posture,
            conditions: a2.conditions,
            ..a
        }),
        operator_conditions(a2.conditions) == operator_conditions(a.conditions),
    ensures
        same_status(a, a2),
        same_status(a, b) == same_status(a2, b),
        same_status(a, b) == same_status(b, a),
        a.phase != b.phase ==> !same_status(a, b),
        a.caliband_endpoint != b.caliband_endpoint ==> !same_status(a, b),
        a.sandbox_ref != b.sandbox_ref ==> !same_status(a, b),
        operator_conditions(a.conditions) != operator_conditions(b.conditions) ==> !same_status(
            a,
            b,
        ),
{
}

/// Conditions of another type in front do not hide a condition.
proof fn lemma_condition_at_add(a: Seq<ConditionView>, b: Seq<ConditionView>, type_: Seq<char>)
    requires
        forall|i: int| 0 <= i < a.len() ==> (#[trigger] a[i]).type_ != type_,
    ensures
        condition_at(a + b, type_) == condition_at(b, type_),
    decreases a.len(),
{
    if a.len() == 0 {
        assert(a + b =~= b);
    } else {
        assert((a + b).drop_first() =~= a.drop_first() + b);
        assert(a[0].type_ != type_);
        assert forall|i: int| 0 <= i < a.drop_first().len() implies (
        #[trigger] a.drop_first()[i]).type_ != type_ by {
            assert(a.drop_first()[i] == a[i + 1]);
        }
        lemma_condition_at_add(a.drop_first(), b, type_);
    }
}

/// The task as it is observed after `status` was written to it: the operator's conditions are
/// those written, and the other managers' stay.
pub open spec fn written(
    t: CalibanTaskView,
    status: CalibanTaskStatusView,
    others: Seq<ConditionView>,
) -> CalibanTaskView {
    CalibanTaskView {
        status: Some(
            CalibanTaskStatusView { conditions: status.conditions + others, ..status },
        ),
        ..t
    }
}

/// Whether `others` says of the agents what the observed status says.
pub open spec fn same_report(t: CalibanTaskView, others: Seq<ConditionView>) -> bool {
    condition_at(others, "AgentsSettled"@) == condition_at(
        observed(t).conditions,
        "AgentsSettled"@,
    )
}

/// What has been reported of the agents is still there after a write.
pub proof fn lemma_report_survives(
    t: CalibanTaskView,
    status: CalibanTaskStatusView,
    others: Seq<ConditionView>,
)
    requires
        only_own_conditions(status.conditions),
        same_report(t, others),
    ensures
        settled(written(t, status, others)) == settled(t),
{
    reveal_strlit("Ready");
    reveal_strlit("AgentsSettled");
    assert("Ready"@.len() != "AgentsSettled"@.len());
    assert forall|i: int| 0 <= i < status.conditions.len() implies (
    #[trigger] status.conditions[i]).type_ != "AgentsSettled"@ by {
        assert(status.conditions[i].type_ == "Ready"@);
    }
    lemma_condition_at_add(status.conditions, others, "AgentsSettled"@);
    assert(condition_at(Seq::empty(), "AgentsSettled"@) is None);
}

/// Writing a status settles it: with the same Sandbox and the same report on the agents, nothing
/// is written again, whatever conditions other managers have added.
pub proof fn law_written_status_is_stable(
    t: CalibanTaskView,
    sandbox: Option<SandboxView>,
    s: SettingsView,
    status: CalibanTaskStatusView,
    others: Seq<ConditionView>,
)
    requires
        same_status(status, next_status(t, sandbox, s)),
        status.conditions == next_status(t, sandbox, s).conditions,
        no_own_conditions(others),
        same_report(t, others),
    ensures
        derived_status(written(t, status, others), sandbox, s) is None,
{
    let u = written(t, status, others);
    let next = next_status(t, sandbox, s);
    law_only_own_conditions_are_written(t, sandbox, s, Seq::empty(), Seq::empty());
    lemma_report_survives(t, status, others);
    lemma_operator_conditions(status.conditions, others);
    lemma_operator_conditions(next.conditions, Seq::empty());
    assert(next.conditions + Seq::<ConditionView>::empty() =~= next.conditions);
    assert(next_status(u, sandbox, s).conditions == next.conditions);
}

/// A failure that is recorded is not written again, whatever conditions other managers have added.
pub proof fn law_recorded_failure_is_stable(
    t: CalibanTaskView,
    reason: Seq<char>,
    message: Seq<char>,
    status: CalibanTaskStatusView,
    others: Seq<ConditionView>,
)
    requires
        same_status(status, failure_of(reason, message)),
        status.conditions == failure_of(reason, message).conditions,
        no_own_conditions(others),
    ensures
        derived_failure(written(t, status, others), reason, message) is None,
{
    let failure = failure_of(reason, message);
    lemma_operator_conditions(status.conditions, others);
    lemma_operator_conditions(failure.conditions, Seq::empty());
    assert(failure.conditions + Seq::<ConditionView>::empty() =~= failure.conditions);
}

/// Another reason or message is a change, and is written.
pub proof fn law_changed_failure_is_written(
    t: CalibanTaskView,
    reason: Seq<char>,
    message: Seq<char>,
    new_reason: Seq<char>,
    new_message: Seq<char>,
)
    requires
        reason != new_reason || message != new_message,
    ensures
        derived_failure(
            CalibanTaskView { status: Some(failure_of(reason, message)), ..t },
            new_reason,
            new_message,
        ) == Some(failure_of(new_reason, new_message)),
{
    let a = failure_of(reason, message).conditions;
    let b = failure_of(new_reason, new_message).conditions;
    lemma_operator_conditions(a, Seq::empty());
    lemma_operator_conditions(b, Seq::empty());
    assert(a + Seq::<ConditionView>::empty() =~= a);
    assert(b + Seq::<ConditionView>::empty() =~= b);
    assert(a[0] != b[0]);
}

/// A task is pinned only to a workspace that its own controller has found ready, and to the
/// configuration that the workspace resolves to.
pub proof fn law_only_ready_workspaces_are_pinned(
    ws: Option<WorkspaceView>,
    provider_ref: Option<Seq<char>>,
    workspace_ref: Seq<char>,
)
    ensures
        admission_of(ws, provider_ref, workspace_ref) matches AdmissionView::Pin(rw) ==> {
            &&& ws is Some
            &&& workspace_phase(ws->0) == WorkspacePhase::Ready
            &&& workspace::resolve(ws->0.spec, provider_ref) == Ok::<
                ResolvedWorkspaceView,
                Seq<char>,
            >(rw)
        },
        admission_of(ws, provider_ref, workspace_ref) is Requeue <==> (ws is Some
            && workspace_phase(ws->0) == WorkspacePhase::Pending),
{
}

/// An apply names its type, and carries the status as it stands.
pub proof fn law_apply_body_names_its_type(status: CalibanTaskStatusView)
    ensures
        apply_body_of(status).get("apiVersion"@) == Some(JsonView::Text(API_VERSION@)),
        apply_body_of(status).get("kind"@) == Some(JsonView::Text(TASK_KIND@)),
        apply_body_of(status).get("status"@) == Some(wire::task_status_of(status)),
{
    reveal_strlit("apiVersion");
    reveal_strlit("kind");
    reveal_strlit("status");
    assert("apiVersion"@.len() == 10 && "kind"@.len() == 4 && "status"@.len() == 6);
}

/// Whether place `i` holds the first condition of that type.
pub open spec fn is_first(cs: Seq<ConditionView>, type_: Seq<char>, i: int) -> bool {
    &&& 0 <= i < cs.len()
    &&& cs[i].type_ == type_
    &&& forall|j: int| 0 <= j < i ==> (#[trigger] cs[j]).type_ != type_
}

/// Of several conditions of one type, the first is the one that counts.
pub proof fn law_first_condition_counts(cs: Seq<ConditionView>, type_: Seq<char>, i: int)
    ensures
        is_first(cs, type_, i) ==> condition_at(cs, type_) == Some(cs[i]),
        condition_at(cs, type_) is None <==> (forall|j: int|
            0 <= j < cs.len() ==> (#[trigger] cs[j]).type_ != type_),
        condition_at(cs, type_) matches Some(c) ==> exists|j: int| #[trigger]
            is_first(cs, type_, j) && cs[j] == c,
    decreases cs.len(),
{
    if cs.len() > 0 {
        let rest = cs.drop_first();
        law_first_condition_counts(rest, type_, i - 1);
        assert forall|j: int| 0 <= j < rest.len() implies #[trigger] rest[j] == cs[j + 1] by {}
        if is_first(cs, type_, i) && i > 0 {
            assert(cs[0].type_ != type_);
            assert forall|j: int| 0 <= j < i - 1 implies (#[trigger] rest[j]).type_ != type_ by {
                assert(rest[j] == cs[j + 1]);
            }
            assert(is_first(rest, type_, i - 1));
        }
        if cs[0].type_ == type_ {
            assert(is_first(cs, type_, 0));
        } else {
            if let Some(c) = condition_at(cs, type_) {
                let k = choose|k: int| #[trigger] is_first(rest, type_, k) && rest[k] == c;
                assert forall|j: int| 0 <= j < k + 1 implies (#[trigger] cs[j]).type_ != type_ by {
                    if j > 0 {
                        assert(rest[j - 1] == cs[j]);
                    }
                }
                assert(is_first(cs, type_, k + 1));
            } else {
                assert forall|j: int| 0 <= j < cs.len() implies (#[trigger] cs[j]).type_ != type_ by {
                    if j > 0 {
                        assert(rest[j - 1] == cs[j]);
                    }
                }
            }
            if forall|j: int| 0 <= j < cs.len() ==> (#[trigger] cs[j]).type_ != type_ {
                assert forall|j: int| 0 <= j < rest.len() implies (#[trigger] rest[j]).type_
                    != type_ by {
                    assert(rest[j] == cs[j + 1]);
                }
            }
        }
    }
}

/// Whether a Sandbox is up, by what it reports: its Service has a name, and its first `Ready`
/// condition is `True`.
pub open spec fn reports_up(sandbox: SandboxView) -> bool {
    &&& sandbox.status matches Some(st) && st.service_fqdn is Some
    &&& exists|i: int| #[trigger]
        is_first(sandbox.status->0.conditions, "Ready"@, i) && sandbox.status->0.conditions[i].status
            == "True"@
}

/// Whether it is reported of a task that its agents have settled, for that reason: its first
/// `AgentsSettled` condition is `True` and gives it.
pub open spec fn reported(t: CalibanTaskView, reason: Seq<char>) -> bool {
    &&& t.status is Some
    &&& exists|i: int| #[trigger]
        is_first(t.status->0.conditions, "AgentsSettled"@, i) && t.status->0.conditions[i].status
            == "True"@ && t.status->0.conditions[i].reason == Some(reason)
}

proof fn lemma_reports_up(sandbox: SandboxView)
    ensures
        reports_up(sandbox) <==> sandbox_up(Some(sandbox)),
{
    if let Some(st) = sandbox.status {
        law_first_condition_counts(st.conditions, "Ready"@, 0);
        if reports_up(sandbox) {
            let i = choose|i: int| #[trigger]
                is_first(st.conditions, "Ready"@, i) && st.conditions[i].status == "True"@;
            law_first_condition_counts(st.conditions, "Ready"@, i);
        }
    }
}

proof fn lemma_reported(t: CalibanTaskView, reason: Seq<char>)
    ensures
        reported(t, reason) <==> (settled(t) matches Some(c) && c.reason == Some(reason)),
{
    if let Some(st) = t.status {
        law_first_condition_counts(st.conditions, "AgentsSettled"@, 0);
        if reported(t, reason) {
            let i = choose|i: int| #[trigger]
                is_first(st.conditions, "AgentsSettled"@, i) && st.conditions[i].status == "True"@
                    && st.conditions[i].reason == Some(reason);
            law_first_condition_counts(st.conditions, "AgentsSettled"@, i);
        }
    }
}

/// Without a report that its agents have settled, the Sandbox alone gives a task its phase, whatever
/// phase was observed before: none means `Pending`, one that is up means `Running`, and one that is
/// not yet means `Provisioning`. With such a report the phase is `Completed` or `Failed`, whatever
/// the Sandbox does; neither is ever derived without one.
pub proof fn law_phase(t: CalibanTaskView, sandbox: Option<SandboxView>, s: SettingsView)
    ensures
        ({
            let phase = next_status(t, sandbox, s).phase;
            if reported(t, "Succeeded"@) {
                phase == Phase::Completed
            } else if reported(t, "Failed"@) {
                phase == Phase::Failed
            } else {
                match sandbox {
                    None => phase == Phase::Pending,
                    Some(sb) => if reports_up(sb) {
                        phase == Phase::Running
                    } else {
                        phase == Phase::Provisioning
                    },
                }
            }
        }),
        derived_status(t, sandbox, s) matches Some(st) ==> st == next_status(t, sandbox, s),
        t.status is None ==> derived_status(t, sandbox, s) is Some,
{
    lemma_reported(t, "Succeeded"@);
    lemma_reported(t, "Failed"@);
    if let Some(sb) = sandbox {
        lemma_reports_up(sb);
    }
}

/// Two tasks of which no settled agents are reported get the same phase from the same Sandbox,
/// whatever else was observed of them.
pub proof fn law_observed_phase_does_not_count(
    t: CalibanTaskView,
    u: CalibanTaskView,
    sandbox: Option<SandboxView>,
    s: SettingsView,
)
    requires
        !reported(t, "Succeeded"@) && !reported(t, "Failed"@),
        !reported(u, "Succeeded"@) && !reported(u, "Failed"@),
    ensures
        next_status(t, sandbox, s).phase == next_status(u, sandbox, s).phase,
        next_status(t, sandbox, s).conditions == next_status(u, sandbox, s).conditions,
        next_status(t, sandbox, s).caliband_endpoint == next_status(u, sandbox, s).caliband_endpoint,
{
    law_phase(t, sandbox, s);
    law_phase(u, sandbox, s);
}

/// A task's caliband is dialed at the name of its Sandbox's Service and the control port, and only
/// once the Sandbox is up. The task refers to its Sandbox by name as soon as there is one. What is
/// not derived stays as it was observed.
pub proof fn law_endpoint_and_references(
    t: CalibanTaskView,
    sandbox: Option<SandboxView>,
    s: SettingsView,
)
    ensures
        ({
            let next = next_status(t, sandbox, s);
            &&& match sandbox {
                None => next.caliband_endpoint is None && next.sandbox_ref is None,
                Some(sb) => {
                    &&& next.caliband_endpoint == (if reports_up(sb) {
                        Some(
                            sb.status->0.service_fqdn->0 + ":"@ + text::decimal_int(
                                s.caliband_port as int,
                            ),
                        )
                    } else {
                        None
                    })
                    &&& next.sandbox_ref is Some
                    &&& next.sandbox_ref->0.name == t.metadata.name_any() + "-sbx"@
                },
            }
            &&& match t.status {
                Some(st) => {
                    &&& next.checkpoint_ref == st.checkpoint_ref
                    &&& next.resolved_workspace == st.resolved_workspace
                    &&& next.permission_posture == st.permission_posture
                },
                None => {
                    &&& next.checkpoint_ref is None
                    &&& next.resolved_workspace is None
                    &&& next.permission_posture is None
                },
            }
        }),
{
    if let Some(sb) = sandbox {
        lemma_reports_up(sb);
    }
}

/// The one condition that is derived says what the phase means: `Ready` is `True` exactly while the
/// task runs. A Sandbox that reports itself unready is quoted; a Sandbox that reports nothing, or
/// that is ready but has no name yet, leaves the task without a condition, as does none. Failed
/// agents are explained in the words of the report, if it has any.
pub proof fn law_ready_condition(t: CalibanTaskView, sandbox: Option<SandboxView>, s: SettingsView)
    ensures
        ({
            let next = next_status(t, sandbox, s);
            let c = next.conditions[0];
            &&& next.conditions.len() <= 1
            &&& next.conditions.len() == 1 ==> c.type_ == "Ready"@ && (c.status == "True"@
                || c.status == "False"@)
            &&& next.phase == Phase::Running ==> next.conditions.len() == 1 && c.status == "True"@
                && c.reason == Some("Running"@) && c.message is None
            &&& next.phase == Phase::Completed ==> next.conditions.len() == 1 && c.status
                == "False"@ && c.reason == Some("Completed"@) && c.message is None
            &&& next.phase == Phase::Failed ==> next.conditions.len() == 1 && c.status == "False"@
                && c.reason == Some("AgentsFailed"@) && c.message is Some
            &&& next.phase == Phase::Pending ==> next.conditions.len() == 0
            &&& next.phase == Phase::Provisioning && next.conditions.len() == 1 ==> c.status
                == "False"@ && c.reason == Some("SandboxNotReady"@)
        }),
        forall|i: int|
            sandbox is Some && sandbox->0.status is Some && #[trigger] is_first(
                sandbox->0.status->0.conditions,
                "Ready"@,
                i,
            ) && next_status(t, sandbox, s).phase == Phase::Provisioning ==> {
                let report = sandbox->0.status->0.conditions[i];
                let next = next_status(t, sandbox, s);
                if report.status == "True"@ {
                    next.conditions.len() == 0
                } else {
                    next.conditions.len() == 1 && next.conditions[0].message == report.message
                }
            },
        next_status(t, sandbox, s).phase == Phase::Provisioning && (sandbox->0.status is None || (
        forall|i: int| !#[trigger] is_first(sandbox->0.status->0.conditions, "Ready"@, i)))
            ==> next_status(t, sandbox, s).conditions.len() == 0,
        forall|i: int|
            reported(t, "Failed"@) && #[trigger] is_first(
                t.status->0.conditions,
                "AgentsSettled"@,
                i,
            ) ==> next_status(t, sandbox, s).conditions[0].message == (match t.status->0.conditions[i].message {
                Some(m) => Some(m),
                None => Some("one or more agents failed or crashed"@),
            }),
{
    law_phase(t, sandbox, s);
    reveal_strlit("Succeeded");
    reveal_strlit("Failed");
    assert("Succeeded"@.len() != "Failed"@.len());
    if sandbox is Some && sandbox->0.status is Some {
        let cs = sandbox->0.status->0.conditions;
        law_first_condition_counts(cs, "Ready"@, 0);
        assert forall|i: int| #[trigger] is_first(cs, "Ready"@, i) implies sandbox_ready(sandbox)
            == Some(cs[i]) by {
            law_first_condition_counts(cs, "Ready"@, i);
        }
    }
    if t.status is Some {
        let cs = t.status->0.conditions;
        lemma_reported(t, "Failed"@);
        lemma_reported(t, "Succeeded"@);
        assert forall|i: int| #[trigger] is_first(cs, "AgentsSettled"@, i) implies condition_at(
            cs,
            "AgentsSettled"@,
        ) == Some(cs[i]) by {
            law_first_condition_counts(cs, "AgentsSettled"@, i);
        }
    }
}

/// Nothing is written exactly if the observed status says it all: it has the phase, the endpoint,
/// the reference and the `Ready` conditions that are derived.
pub proof fn law_nothing_is_written_without_need(
    t: CalibanTaskView,
    sandbox: Option<SandboxView>,
    s: SettingsView,
)
    ensures
        derived_status(t, sandbox, s) is None <==> {
            let next = next_status(t, sandbox, s);
            &&& t.status is Some
            &&& t.status->0.phase == next.phase
            &&& t.status->0.caliband_endpoint == next.caliband_endpoint
            &&& t.status->0.sandbox_ref == next.sandbox_ref
            &&& t.status->0.conditions.filter(|c: ConditionView| c.type_ == "Ready"@)
                == next.conditions
        },
{
    let next = next_status(t, sandbox, s);
    law_only_own_conditions_are_written(t, sandbox, s, Seq::empty(), Seq::empty());
    lemma_operator_conditions(next.conditions, Seq::empty());
    assert(next.conditions + Seq::<ConditionView>::empty() =~= next.conditions);
    if let Some(st) = t.status {
        law_own_conditions_are_the_ready_ones(st.conditions);
    }
}

/// A task that cannot be provisioned is `Failed`, not `Ready` for the given reason and with the
/// given message, and has neither an endpoint nor a Sandbox. That is written unless it is what was
/// observed.
pub proof fn law_failure(t: CalibanTaskView, reason: Seq<char>, message: Seq<char>)
    ensures
        derived_failure(t, reason, message) matches Some(f) ==> {
            &&& f.phase == Phase::Failed
            &&& f.conditions.len() == 1
            &&& f.conditions[0].type_ == "Ready"@
            &&& f.conditions[0].status == "False"@
            &&& f.conditions[0].reason == Some(reason)
            &&& f.conditions[0].message == Some(message)
            &&& f.caliband_endpoint is None
            &&& f.sandbox_ref is None
            &&& f.checkpoint_ref is None
            &&& f.resolved_workspace is None
            &&& f.permission_posture is None
        },
        derived_failure(t, reason, message) is None ==> t.status is Some && ({
            let own = t.status->0.conditions.filter(|c: ConditionView| c.type_ == "Ready"@);
            &&& t.status->0.phase == Phase::Failed
            &&& t.status->0.caliband_endpoint is None
            &&& t.status->0.sandbox_ref is None
            &&& own.len() == 1
            &&& own[0].status == "False"@
            &&& own[0].reason == Some(reason)
            &&& own[0].message == Some(message)
        }),
{
    let f = failure_of(reason, message);
    lemma_operator_conditions(f.conditions, Seq::empty());
    assert(f.conditions + Seq::<ConditionView>::empty() =~= f.conditions);
    if let Some(st) = t.status {
        law_own_conditions_are_the_ready_ones(st.conditions);
    }
}

/// A task is admitted by what is observed of its workspace: without one it fails, naming it; one
/// that is not validated yet is waited for; one that failed fails the task, saying why; and one
/// that is ready is resolved.
pub proof fn law_admission(
    ws: Option<WorkspaceView>,
    provider_ref: Option<Seq<char>>,
    name: Seq<char>,
)
    ensures
        ({
            let a = admission_of(ws, provider_ref, name);
            match ws {
                None => a == AdmissionView::Fail("Workspace not found: '"@ + name + "'"@),
                Some(w) => match w.status {
                    None => a == AdmissionView::Requeue,
                    Some(st) => match st.phase {
                        WorkspacePhase::Pending => a == AdmissionView::Requeue,
                        WorkspacePhase::Failed => a == AdmissionView::Fail(
                            "workspace '"@ + name + "' not ready: "@ + (if st.message is Some {
                                st.message->0
                            } else {
                                "validation failed"@
                            }),
                        ),
                        WorkspacePhase::Ready => match workspace::resolve(w.spec, provider_ref) {
                            Ok(rw) => a == AdmissionView::Pin(rw),
                            Err(e) => a == AdmissionView::Fail(e),
                        },
                    },
                },
            }
        }),
{
}

/// A task waits ten seconds for a workspace that is not validated yet, and half a minute after a
/// failure; one that is provisioned is looked at again every five minutes.
pub proof fn law_intervals()
    ensures
        PENDING_REQUEUE == 10,
        FAILED_REQUEUE == 30,
        ERROR_REQUEUE == 30,
        RESYNC == 300,
{
}

/// An apply holds three things and no more.
pub proof fn law_apply_body_holds_no_more(status: CalibanTaskStatusView, key: Seq<char>)
    requires
        key != "apiVersion"@ && key != "kind"@ && key != "status"@,
    ensures
        apply_body_of(status).get(key) is None,
        API_VERSION@ == "caliban.caliban-ai.dev/v1alpha1"@,
        TASK_KIND@ == "CalibanTask"@,
{
}

} // verus!
