//! The reconcile of a `CalibanTask`, one step at a time. A step says what to ask of the cluster;
//! what the cluster answers leads to the next step, until the reconcile is finished.

use vstd::prelude::*;

use crate::config;
use crate::config::{task_name_problem, Settings, SettingsView};
use crate::controller;
use crate::controller::{
    admit_task, derive_failed_status, derive_status, Admission, AdmissionView, ERROR_REQUEUE,
    FAILED_REQUEUE, PENDING_REQUEUE, RESYNC,
};
use crate::crd::{
    CalibanTask, CalibanTaskStatus, CalibanTaskStatusView, CalibanTaskView, PermissionPosture,
};
use crate::error::{Error, ErrorView};
use crate::events;
use crate::events::{Event, EventView};
use crate::objects::{
    NetworkPolicy, NetworkPolicyView, Secret, SecretView, ServiceAccount, ServiceAccountView,
};
use crate::resources;
use crate::sandbox::{Sandbox, SandboxView};
use crate::storage;
use crate::text;
use crate::workspace::{ResolvedWorkspace, ResolvedWorkspaceView, Workspace, WorkspaceView};

verus! {

/// What happens after a reconcile.
#[derive(Clone, Copy, Debug, PartialEq, Eq, Structural)]
pub enum Action {
    /// Look again after so many seconds.
    Requeue(u64),
    /// Look again when the object changes.
    AwaitChange,
}

/// What a reconcile asks of the cluster next.
pub enum Step {
    /// Fetch the Workspace of that name, and go on with [`workspace_fetched`].
    FetchWorkspace {
        /// Name of the Workspace.
        name: String,
    },
    /// Fetch the Secret of that name, and go on with [`secret_fetched`].
    FetchSecret {
        /// Name of the Secret.
        name: String,
        /// The configuration that the task is to be pinned to.
        rw: ResolvedWorkspace,
    },
    /// Apply the status that pins the task, and go on with [`advance`].
    Pin {
        /// The status.
        status: CalibanTaskStatus,
        /// The configuration that the status pins.
        rw: ResolvedWorkspace,
    },
    /// Publish that the task was admitted, and go on with [`advance`].
    Announce {
        /// The event.
        event: Event,
        /// The pinned configuration.
        rw: ResolvedWorkspace,
    },
    /// Apply the ServiceAccount, and go on with [`advance`].
    ApplyServiceAccount {
        /// The ServiceAccount.
        object: ServiceAccount,
        /// The pinned configuration.
        rw: ResolvedWorkspace,
    },
    /// Apply the NetworkPolicy, and go on with [`advance`].
    ApplyNetworkPolicy {
        /// The NetworkPolicy.
        object: NetworkPolicy,
        /// The pinned configuration.
        rw: ResolvedWorkspace,
    },
    /// Apply the Sandbox, and go on with [`sandbox_applied`] and the live object.
    ApplySandbox {
        /// The Sandbox.
        object: Sandbox,
        /// The pinned configuration.
        rw: ResolvedWorkspace,
    },
    /// Apply the task's status, and go on with [`advance`].
    WriteStatus {
        /// The status.
        status: CalibanTaskStatus,
        /// The events to publish after it, the last one first.
        events: Vec<Event>,
        /// What happens after the reconcile.
        action: Action,
    },
    /// Publish an event, and go on with [`advance`].
    Publish {
        /// The event.
        event: Event,
        /// The events to publish after it, the last one first.
        events: Vec<Event>,
        /// What happens after the reconcile.
        action: Action,
    },
    /// The reconcile is finished.
    Finish(Action),
    /// The reconcile cannot go on.
    Abort(Error),
}

/// What a [`Step`] holds.
#[verifier::ext_equal]
pub enum StepView {
    FetchWorkspace { name: Seq<char> },
    FetchSecret { name: Seq<char>, rw: ResolvedWorkspaceView },
    Pin { status: CalibanTaskStatusView, rw: ResolvedWorkspaceView },
    Announce { event: EventView, rw: ResolvedWorkspaceView },
    ApplyServiceAccount { object: ServiceAccountView, rw: ResolvedWorkspaceView },
    ApplyNetworkPolicy { object: NetworkPolicyView, rw: ResolvedWorkspaceView },
    ApplySandbox { object: SandboxView, rw: ResolvedWorkspaceView },
    WriteStatus { status: CalibanTaskStatusView, events: Seq<EventView>, action: Action },
    Publish { event: EventView, events: Seq<EventView>, action: Action },
    Finish(Action),
    Abort(ErrorView),
}

impl DeepView for Step {
    type V = StepView;

    open spec fn deep_view(&self) -> StepView {
        match self {
            Step::FetchWorkspace { name } => StepView::FetchWorkspace { name: name@ },
            Step::FetchSecret { name, rw } => StepView::FetchSecret {
                name: name@,
                rw: rw.deep_view(),
            },
            Step::Pin { status, rw } => StepView::Pin {
                status: status.deep_view(),
                rw: rw.deep_view(),
            },
            Step::Announce { event, rw } => StepView::Announce {
                event: event.deep_view(),
                rw: rw.deep_view(),
            },
            Step::ApplyServiceAccount { object, rw } => StepView::ApplyServiceAccount {
                object: object.deep_view(),
                rw: rw.deep_view(),
            },
            Step::ApplyNetworkPolicy { object, rw } => StepView::ApplyNetworkPolicy {
                object: object.deep_view(),
                rw: rw.deep_view(),
            },
            Step::ApplySandbox { object, rw } => StepView::ApplySandbox {
                object: object.deep_view(),
                rw: rw.deep_view(),
            },
            Step::WriteStatus { status, events, action } => StepView::WriteStatus {
                status: status.deep_view(),
                events: events.deep_view(),
                action: *action,
            },
            Step::Publish { event, events, action } => StepView::Publish {
                event: event.deep_view(),
                events: events.deep_view(),
                action: *action,
            },
            Step::Finish(action) => StepView::Finish(*action),
            Step::Abort(err) => StepView::Abort(err.deep_view()),
        }
    }
}

// ---------------------------------------------------------------------------------------------
// Failing a task
// ---------------------------------------------------------------------------------------------

/// The configuration that the task is pinned to, if it is.
pub open spec fn pinned(t: CalibanTaskView) -> Option<ResolvedWorkspaceView> {
    controller::observed(t).resolved_workspace
}

/// The posture that the task was admitted with, if that is recorded.
pub open spec fn admitted_posture(t: CalibanTaskView) -> Option<PermissionPosture> {
    controller::observed(t).permission_posture
}

/// How a task fails that cannot be provisioned: the failure is written and published once, and the
/// task stays pinned if it was.
pub open spec fn failing(
    t: CalibanTaskView,
    reason: Seq<char>,
    message: Seq<char>,
    action: Action,
) -> StepView {
    match controller::derived_failure(t, reason, message) {
        Some(failed) => StepView::WriteStatus {
            status: CalibanTaskStatusView {
                resolved_workspace: pinned(t),
                permission_posture: admitted_posture(t),
                ..failed
            },
            events: seq![events::task_failed_of(reason, message)],
            action,
        },
        None => StepView::Finish(action),
    }
}

/// Fails a task that cannot be provisioned.
fn fail_task(t: &CalibanTask, reason: &str, message: &str, action: Action) -> (r: Step)
    ensures
        r.deep_view() == failing(t.deep_view(), reason@, message@, action),
{
    match derive_failed_status(t, reason, message) {
        Some(failed) => {
            let mut status = failed;
            if let Some(cur) = &t.status {
                status.resolved_workspace = cur.resolved_workspace.clone();
                status.permission_posture = cur.permission_posture;
            }
            let events = vec![events::task_failed(reason, message)];
            assert(events.deep_view() =~= seq![events::task_failed_of(reason@, message@)]);
            Step::WriteStatus { status, events, action }
        },
        None => Step::Finish(action),
    }
}

// ---------------------------------------------------------------------------------------------
// Posture
// ---------------------------------------------------------------------------------------------

/// Whether a configuration permits the posture that the task asks for.
pub open spec fn posture_permitted(t: CalibanTaskView, rw: ResolvedWorkspaceView) -> bool {
    t.spec.task.posture() == PermissionPosture::Supervised || rw.allows_unattended()
}

/// What is said of a task whose posture is not permitted.
pub open spec fn posture_message(t: CalibanTaskView) -> Seq<char> {
    "permission posture unattended is not permitted by the agent policy of workspace '"@
        + t.spec.workspace_ref.name + "'"@
}

/// How a task fails whose posture is not permitted. Another workspace policy, or a supervised task,
/// recovers it, so it is looked at again soon.
pub open spec fn posture_denied(t: CalibanTaskView) -> StepView {
    failing(t, "PostureNotPermitted"@, posture_message(t), Action::Requeue(FAILED_REQUEUE))
}

/// Whether a configuration permits the posture that the task asks for.
fn permits_posture(t: &CalibanTask, rw: &ResolvedWorkspace) -> (r: bool)
    ensures
        r == posture_permitted(t.deep_view(), rw.deep_view()),
{
    match t.spec.task.posture() {
        PermissionPosture::Supervised => true,
        PermissionPosture::Unattended => rw.allows_unattended(),
    }
}

/// Fails a task whose posture is not permitted.
fn deny_posture(t: &CalibanTask) -> (r: Step)
    ensures
        r.deep_view() == posture_denied(t.deep_view()),
{
    let start = "permission posture unattended is not permitted by the agent policy of workspace '";
    let message = start.to_string().concat(t.spec.workspace_ref.name.as_str()).concat("'");
    fail_task(t, "PostureNotPermitted", message.as_str(), Action::Requeue(FAILED_REQUEUE))
}

// ---------------------------------------------------------------------------------------------
// The first step
// ---------------------------------------------------------------------------------------------

/// The step that provisions a pinned task.
pub open spec fn provisioning(t: CalibanTaskView, rw: ResolvedWorkspaceView) -> StepView {
    StepView::ApplyServiceAccount { object: resources::service_account_of(t), rw }
}

/// What is wrong with the task's state, if anything is.
pub open spec fn task_state_problem(t: CalibanTaskView) -> Option<Seq<char>> {
    match t.spec.state {
        Some(state) => state.problem(),
        None => None,
    }
}

/// The first step of a reconcile.
pub open spec fn start_of(t: CalibanTaskView) -> StepView {
    if t.metadata.uid is None {
        StepView::Abort(ErrorView::MissingUid(t.metadata.name_any()))
    } else {
        match config::name_problem(t) {
            Some(p) => failing(t, "InvalidName"@, p, Action::AwaitChange),
            None => match task_state_problem(t) {
                Some(p) => failing(t, "InvalidState"@, p, Action::AwaitChange),
                None => match pinned(t) {
                    Some(rw) => if posture_permitted(t, rw) {
                        provisioning(t, rw)
                    } else {
                        posture_denied(t)
                    },
                    None => StepView::FetchWorkspace { name: t.spec.workspace_ref.name },
                },
            },
        }
    }
}

/// Begins a reconcile.
///
/// A task without a UID cannot own its children, and is an error. A name too long for the Sandbox's
/// Service, or a state that cannot be projected, fails the task until it changes. A task is pinned
/// once: one that is pinned keeps the configuration it was admitted with, and only its posture is
/// held against it again. Any other fetches its workspace.
pub fn start(t: &CalibanTask) -> (r: Step)
    ensures
        r.deep_view() == start_of(t.deep_view()),
{
    if t.metadata.uid.is_none() {
        return Step::Abort(Error::MissingUid(t.metadata.name_any()));
    }
    if let Some(p) = task_name_problem(t) {
        return fail_task(t, "InvalidName", p.as_str(), Action::AwaitChange);
    }
    if let Some(state) = &t.spec.state {
        if let Some(p) = storage::state_problem(state) {
            return fail_task(t, "InvalidState", p.as_str(), Action::AwaitChange);
        }
    }
    if let Some(cur) = &t.status {
        if let Some(rw) = &cur.resolved_workspace {
            if !permits_posture(t, rw) {
                return deny_posture(t);
            }
            return Step::ApplyServiceAccount {
                object: resources::build_service_account(t),
                rw: rw.clone(),
            };
        }
    }
    Step::FetchWorkspace { name: t.spec.workspace_ref.name.clone() }
}

// ---------------------------------------------------------------------------------------------
// Admission
// ---------------------------------------------------------------------------------------------

/// The status that pins a task.
pub open spec fn pin_status(
    rw: ResolvedWorkspaceView,
    posture: PermissionPosture,
) -> CalibanTaskStatusView {
    CalibanTaskStatusView {
        resolved_workspace: Some(rw),
        permission_posture: Some(posture),
        ..CalibanTaskStatusView::initial()
    }
}

/// The step that pins a task.
pub open spec fn pinning(t: CalibanTaskView, rw: ResolvedWorkspaceView) -> StepView {
    StepView::Pin { status: pin_status(rw, t.spec.task.posture()), rw }
}

/// The reference to the task's storage token, if it has one.
pub open spec fn token_ref(t: CalibanTaskView) -> Option<crate::workspace::CredentialsRefView> {
    match t.spec.state {
        Some(state) => state.token_ref,
        None => None,
    }
}

/// The step after the workspace was fetched.
pub open spec fn after_workspace(t: CalibanTaskView, ws: Option<WorkspaceView>) -> StepView {
    match controller::admission_of(ws, t.spec.provider_ref, t.spec.workspace_ref.name) {
        AdmissionView::Requeue => StepView::Finish(Action::Requeue(PENDING_REQUEUE)),
        AdmissionView::Fail(reason) => failing(
            t,
            "WorkspaceUnresolved"@,
            reason,
            Action::Requeue(FAILED_REQUEUE),
        ),
        AdmissionView::Pin(rw) => if !posture_permitted(t, rw) {
            posture_denied(t)
        } else {
            match token_ref(t) {
                Some(r) => StepView::FetchSecret { name: r.secret_name, rw },
                None => pinning(t, rw),
            }
        },
    }
}

/// The step after the token's Secret was fetched.
pub open spec fn after_secret(
    t: CalibanTaskView,
    rw: ResolvedWorkspaceView,
    secret: Option<SecretView>,
) -> StepView {
    match token_ref(t) {
        Some(r) => match storage::token_problem(secret, r) {
            Some(p) => failing(
                t,
                "StateTokenUnavailable"@,
                p,
                Action::Requeue(FAILED_REQUEUE),
            ),
            None => pinning(t, rw),
        },
        None => pinning(t, rw),
    }
}

/// Pins a task.
fn pin(t: &CalibanTask, rw: ResolvedWorkspace) -> (r: Step)
    ensures
        r.deep_view() == pinning(t.deep_view(), rw.deep_view()),
{
    let mut status = CalibanTaskStatus::default();
    status.resolved_workspace = Some(rw.clone());
    status.permission_posture = Some(t.spec.task.posture());
    Step::Pin { status, rw }
}

/// Goes on once the workspace was fetched, or was not there: decides whether the task is admitted.
///
/// A workspace that its own controller has not validated yet is waited for. A missing or failed
/// workspace, a provider that cannot be chosen, and a posture that the workspace does not permit
/// fail the task, which is then looked at again soon: nothing here watches the workspace, and
/// mending it is what recovers the task.
pub fn workspace_fetched(t: &CalibanTask, ws: Option<&Workspace>) -> (r: Step)
    ensures
        r.deep_view() == after_workspace(t.deep_view(), ws.deep_view()),
{
    match admit_task(
        ws,
        text::opt_str(&t.spec.provider_ref),
        t.spec.workspace_ref.name.as_str(),
    ) {
        Admission::Requeue => Step::Finish(Action::Requeue(PENDING_REQUEUE)),
        Admission::Fail(reason) => fail_task(
            t,
            "WorkspaceUnresolved",
            reason.as_str(),
            Action::Requeue(FAILED_REQUEUE),
        ),
        Admission::Pin(boxed) => {
            let rw = *boxed;
            if !permits_posture(t, &rw) {
                return deny_posture(t);
            }
            if let Some(state) = &t.spec.state {
                if let Some(r) = &state.token_ref {
                    return Step::FetchSecret { name: r.secret_name.clone(), rw };
                }
            }
            pin(t, rw)
        },
    }
}

/// Goes on once the Secret with the task's storage token was fetched, or was not there.
pub fn secret_fetched(t: &CalibanTask, rw: ResolvedWorkspace, secret: Option<&Secret>) -> (r: Step)
    ensures
        r.deep_view() == after_secret(t.deep_view(), rw.deep_view(), secret.deep_view()),
{
    if let Some(state) = &t.spec.state {
        if let Some(r) = &state.token_ref {
            if let Some(p) = storage::token_secret_problem(secret, r) {
                return fail_task(
                    t,
                    "StateTokenUnavailable",
                    p.as_str(),
                    Action::Requeue(FAILED_REQUEUE),
                );
            }
        }
    }
    pin(t, rw)
}

// ---------------------------------------------------------------------------------------------
// The last steps
// ---------------------------------------------------------------------------------------------

/// The status of a provisioned task, with what it is pinned to and the posture it was admitted with.
pub open spec fn provisioned_status(
    t: CalibanTaskView,
    rw: ResolvedWorkspaceView,
    sandbox: SandboxView,
    s: SettingsView,
) -> CalibanTaskStatusView {
    CalibanTaskStatusView {
        resolved_workspace: Some(rw),
        permission_posture: Some(t.spec.task.posture()),
        ..controller::next_status(t, Some(sandbox), s)
    }
}

/// Whether a task that was pinned before has become unattended since.
pub open spec fn newly_unattended(t: CalibanTaskView) -> bool {
    &&& pinned(t) is Some
    &&& t.spec.task.posture() == PermissionPosture::Unattended
    &&& admitted_posture(t) != Some(PermissionPosture::Unattended)
}

/// The events to publish after the status was written, the last one first.
pub open spec fn closing_events(t: CalibanTaskView, sandbox: SandboxView) -> Seq<EventView> {
    let from = match t.status {
        Some(st) => Some(st.phase),
        None => None,
    };
    (match events::phase_change_of(from, controller::phase_of(t, Some(sandbox))) {
        Some(e) => seq![e],
        None => Seq::empty(),
    }) + (if newly_unattended(t) {
        seq![events::unattended_admitted_of(t.spec.workspace_ref.name)]
    } else {
        Seq::empty()
    })
}

/// The step after the Sandbox was applied: the status is written if anything in it changes.
pub open spec fn after_sandbox(
    t: CalibanTaskView,
    rw: ResolvedWorkspaceView,
    sandbox: SandboxView,
    s: SettingsView,
) -> StepView {
    if controller::derived_status(t, Some(sandbox), s) is Some || admitted_posture(t) != Some(
        t.spec.task.posture(),
    ) {
        StepView::WriteStatus {
            status: provisioned_status(t, rw, sandbox, s),
            events: closing_events(t, sandbox),
            action: Action::Requeue(RESYNC),
        }
    } else {
        StepView::Finish(Action::Requeue(RESYNC))
    }
}

/// The posture that the task was admitted with, if that is recorded.
fn recorded_posture(t: &CalibanTask) -> (r: Option<PermissionPosture>)
    ensures
        r == admitted_posture(t.deep_view()),
{
    match &t.status {
        Some(st) => st.permission_posture,
        None => None,
    }
}

/// Goes on once the Sandbox was applied, with the live object: derives the task's status from it.
///
/// The pin and the posture are operator-owned fields too. Under server-side apply, leaving one out
/// would remove it, and the observed task predates a pin made in the same reconcile, so both are
/// always carried.
pub fn sandbox_applied(
    t: &CalibanTask,
    rw: ResolvedWorkspace,
    sandbox: &Sandbox,
    s: &Settings,
) -> (r: Step)
    ensures
        r.deep_view() == after_sandbox(
            t.deep_view(),
            rw.deep_view(),
            sandbox.deep_view(),
            s.deep_view(),
        ),
{
    let ghost tv = t.deep_view();
    let ghost sb = sandbox.deep_view();
    let posture = t.spec.task.posture();
    let recorded = recorded_posture(t);
    let changed = recorded != Some(posture);
    if derive_status(t, Some(sandbox), s).is_none() && !changed {
        return Step::Finish(Action::Requeue(RESYNC));
    }
    let mut status = controller::status_after(t, Some(sandbox), s);
    let from = match &t.status {
        Some(st) => Some(st.phase),
        None => None,
    };
    let mut closing: Vec<Event> = Vec::new();
    assert(closing.deep_view() =~= Seq::empty());
    if let Some(e) = events::phase_changed(from, status.phase) {
        let ghost ev = e.deep_view();
        closing.push(e);
        assert(closing.deep_view() =~= seq![ev]);
    }
    let ghost before = closing.deep_view();
    let was_pinned = match &t.status {
        Some(st) => st.resolved_workspace.is_some(),
        None => false,
    };
    if was_pinned && posture == PermissionPosture::Unattended && recorded != Some(
        PermissionPosture::Unattended,
    ) {
        closing.push(events::unattended_admitted(t.spec.workspace_ref.name.as_str()));
        assert(closing.deep_view() =~= before.push(
            events::unattended_admitted_of(tv.spec.workspace_ref.name),
        ));
    }
    assert(closing.deep_view() =~= closing_events(tv, sb));
    status.resolved_workspace = Some(rw);
    status.permission_posture = Some(posture);
    Step::WriteStatus { status, events: closing, action: Action::Requeue(RESYNC) }
}

/// The step that publishes the remaining events, or finishes.
pub open spec fn closing(events: Seq<EventView>, action: Action) -> StepView {
    if events.len() == 0 {
        StepView::Finish(action)
    } else {
        StepView::Publish { event: events.last(), events: events.drop_last(), action }
    }
}

/// Publishes the remaining events, or finishes.
fn close(events: Vec<Event>, action: Action) -> (r: Step)
    ensures
        r.deep_view() == closing(events.deep_view(), action),
{
    let ghost all = events.deep_view();
    let mut events = events;
    match events.pop() {
        Some(event) => {
            assert(events.deep_view() =~= all.drop_last());
            Step::Publish { event, events, action }
        },
        None => Step::Finish(action),
    }
}

/// The step after one that was done and that nothing has to be known of. A step that waits for an
/// answer, or that ends the reconcile, stays as it is.
pub open spec fn next_step(t: CalibanTaskView, s: SettingsView, step: StepView) -> StepView {
    match step {
        StepView::Pin { status, rw } => if t.spec.task.posture() == PermissionPosture::Unattended {
            StepView::Announce {
                event: events::unattended_admitted_of(t.spec.workspace_ref.name),
                rw,
            }
        } else {
            provisioning(t, rw)
        },
        StepView::Announce { event, rw } => provisioning(t, rw),
        StepView::ApplyServiceAccount { object, rw } => StepView::ApplyNetworkPolicy {
            object: resources::network_policy_of(t, rw.egress, s),
            rw,
        },
        StepView::ApplyNetworkPolicy { object, rw } => StepView::ApplySandbox {
            object: resources::sandbox_of(t, rw, s),
            rw,
        },
        StepView::WriteStatus { status, events, action } => closing(events, action),
        StepView::Publish { event, events, action } => closing(events, action),
        _ => step,
    }
}

/// Goes on after a step that was done and that nothing has to be known of.
pub fn advance(t: &CalibanTask, s: &Settings, step: Step) -> (r: Step)
    ensures
        r.deep_view() == next_step(t.deep_view(), s.deep_view(), step.deep_view()),
{
    match step {
        Step::Pin { status, rw } => match t.spec.task.posture() {
            PermissionPosture::Unattended => Step::Announce {
                event: events::unattended_admitted(t.spec.workspace_ref.name.as_str()),
                rw,
            },
            PermissionPosture::Supervised => Step::ApplyServiceAccount {
                object: resources::build_service_account(t),
                rw,
            },
        },
        Step::Announce { event, rw } => Step::ApplyServiceAccount {
            object: resources::build_service_account(t),
            rw,
        },
        Step::ApplyServiceAccount { object, rw } => Step::ApplyNetworkPolicy {
            object: resources::restricted_network_policy(t, rw.egress.as_ref(), s),
            rw,
        },
        Step::ApplyNetworkPolicy { object, rw } => Step::ApplySandbox {
            object: resources::build_sandbox(t, &rw, s),
            rw,
        },
        Step::WriteStatus { status, events, action } => close(events, action),
        Step::Publish { event, events, action } => close(events, action),
        other => other,
    }
}

/// What a reconcile that failed comes to: a Warning on the task, and another try.
pub fn error_policy(err: &Error) -> (r: (Event, Action))
    ensures
        r.0.deep_view() == events::reconcile_error_of(err.deep_view()),
        r.1 == Action::Requeue(ERROR_REQUEUE),
{
    (events::reconcile_error(err), Action::Requeue(ERROR_REQUEUE))
}

// ---------------------------------------------------------------------------------------------
// Laws
// ---------------------------------------------------------------------------------------------

/// The configuration that a step carries, if it carries one: what the task is, or is about to be,
/// pinned to and provisioned with.
pub open spec fn carried(step: StepView) -> Option<ResolvedWorkspaceView> {
    match step {
        StepView::FetchSecret { name, rw } => Some(rw),
        StepView::Pin { status, rw } => Some(rw),
        StepView::Announce { event, rw } => Some(rw),
        StepView::ApplyServiceAccount { object, rw } => Some(rw),
        StepView::ApplyNetworkPolicy { object, rw } => Some(rw),
        StepView::ApplySandbox { object, rw } => Some(rw),
        _ => None,
    }
}

/// The status that a step writes, if it writes one.
pub open spec fn written_by(step: StepView) -> Option<CalibanTaskStatusView> {
    match step {
        StepView::Pin { status, rw } => Some(status),
        StepView::WriteStatus { status, events, action } => Some(status),
        _ => None,
    }
}

/// The most steps that can follow a step.
pub open spec fn distance(step: StepView) -> nat {
    match step {
        StepView::FetchWorkspace { .. } => 11,
        StepView::FetchSecret { .. } => 10,
        StepView::Pin { .. } => 9,
        StepView::Announce { .. } => 8,
        StepView::ApplyServiceAccount { .. } => 7,
        StepView::ApplyNetworkPolicy { .. } => 6,
        StepView::ApplySandbox { .. } => 5,
        StepView::WriteStatus { status, events, action } => 2 + events.len(),
        StepView::Publish { event, events, action } => 1 + events.len(),
        StepView::Finish(_) => 0,
        StepView::Abort(_) => 0,
    }
}

/// Whether `b` can follow `a` in a reconcile of `t`, for some answer of the cluster.
pub open spec fn follows(t: CalibanTaskView, s: SettingsView, a: StepView, b: StepView) -> bool {
    match a {
        StepView::FetchWorkspace { name } => exists|ws: Option<WorkspaceView>|
            b == #[trigger] after_workspace(t, ws),
        StepView::FetchSecret { name, rw } => exists|secret: Option<SecretView>|
            b == #[trigger] after_secret(t, rw, secret),
        StepView::ApplySandbox { object, rw } => exists|sandbox: SandboxView|
            b == #[trigger] after_sandbox(t, rw, sandbox, s),
        StepView::Finish(_) => false,
        StepView::Abort(_) => false,
        _ => b == next_step(t, s, a),
    }
}

/// Whether `run` is how a reconcile of `t` can go, as far as it has come.
pub open spec fn is_run(t: CalibanTaskView, s: SettingsView, run: Seq<StepView>) -> bool {
    &&& run.len() > 0
    &&& run[0] == start_of(t)
    &&& forall|i: int, j: int|
        0 <= i && j == i + 1 && j < run.len() ==> follows(
            t,
            s,
            #[trigger] run[i],
            #[trigger] run[j],
        )
}

/// Every step brings a reconcile nearer to its end.
proof fn lemma_nearer(t: CalibanTaskView, s: SettingsView, a: StepView, b: StepView)
    requires
        follows(t, s, a, b),
    ensures
        distance(b) < distance(a),
{
}

proof fn lemma_run_distance(t: CalibanTaskView, s: SettingsView, run: Seq<StepView>, i: int)
    requires
        is_run(t, s, run),
        0 <= i < run.len(),
    ensures
        distance(run[i]) + i <= 11,
    decreases i,
{
    if i > 0 {
        lemma_run_distance(t, s, run, i - 1);
        assert(follows(t, s, run[i - 1], run[i]));
        lemma_nearer(t, s, run[i - 1], run[i]);
    }
}

/// A reconcile ends: whatever the cluster answers, it takes at most twelve steps, and a run that is
/// that long has come to its end.
pub proof fn law_reconcile_ends(t: CalibanTaskView, s: SettingsView, run: Seq<StepView>)
    requires
        is_run(t, s, run),
    ensures
        run.len() <= 12,
        run.len() == 12 ==> (run.last() is Finish || run.last() is Abort),
{
    let last = run.len() - 1;
    lemma_run_distance(t, s, run, last);
}

/// Whether a task may be provisioned with a configuration: it is pinned to it already, or is not
/// pinned and a ready workspace resolves to it.
pub open spec fn is_entitled(t: CalibanTaskView, rw: ResolvedWorkspaceView) -> bool {
    match pinned(t) {
        Some(x) => x == rw,
        None => exists|w: WorkspaceView|
            {
                &&& #[trigger] controller::workspace_phase(w)
                    == crate::workspace::WorkspacePhase::Ready
                &&& crate::workspace::resolve(w.spec, t.spec.provider_ref) == Ok::<
                    ResolvedWorkspaceView,
                    Seq<char>,
                >(rw)
            },
    }
}

/// What holds of the configuration that any step of a run carries.
proof fn lemma_run_carries(t: CalibanTaskView, s: SettingsView, run: Seq<StepView>, i: int)
    requires
        is_run(t, s, run),
        0 <= i < run.len(),
    ensures
        carried(run[i]) matches Some(rw) ==> posture_permitted(t, rw) && is_entitled(t, rw),
        run[i] is FetchWorkspace ==> pinned(t) is None,
    decreases i,
{
    if i > 0 {
        lemma_run_carries(t, s, run, i - 1);
        assert(follows(t, s, run[i - 1], run[i]));
        if run[i - 1] is FetchWorkspace {
            let ws = choose|ws: Option<WorkspaceView>| run[i] == #[trigger] after_workspace(t, ws);
            controller::law_only_ready_workspaces_are_pinned(
                ws,
                t.spec.provider_ref,
                t.spec.workspace_ref.name,
            );
            if carried(run[i]) is Some {
                assert(controller::workspace_phase(ws->0)
                    == crate::workspace::WorkspacePhase::Ready);
            }
        }
    }
}

/// A task never runs unattended without a policy that allows it: no step of any run carries a
/// configuration that does not permit the task's posture. The configuration is checked before it is
/// pinned, and a pinned one on every reconcile.
pub proof fn law_unattended_needs_a_policy(
    t: CalibanTaskView,
    s: SettingsView,
    run: Seq<StepView>,
    i: int,
)
    requires
        is_run(t, s, run),
        0 <= i < run.len(),
        t.spec.task.posture() == PermissionPosture::Unattended,
    ensures
        carried(run[i]) matches Some(rw) ==> rw.allows_unattended(),
{
    lemma_run_carries(t, s, run, i);
}

/// A task is provisioned with nothing but what it is pinned to, or, before it is pinned, with what
/// a ready workspace resolves to.
pub proof fn law_only_entitled_configurations_are_used(
    t: CalibanTaskView,
    s: SettingsView,
    run: Seq<StepView>,
    i: int,
)
    requires
        is_run(t, s, run),
        0 <= i < run.len(),
    ensures
        carried(run[i]) matches Some(rw) ==> is_entitled(t, rw),
{
    lemma_run_carries(t, s, run, i);
}

/// What a run applies, and what it has pinned before.
proof fn lemma_run_applies(t: CalibanTaskView, s: SettingsView, run: Seq<StepView>, i: int)
    requires
        is_run(t, s, run),
        0 <= i < run.len(),
    ensures
        match run[i] {
            StepView::ApplyServiceAccount { object, rw } => object == resources::plan_of(
                t,
                rw,
                s,
            ).service_account,
            StepView::ApplyNetworkPolicy { object, rw } => object == resources::plan_of(
                t,
                rw,
                s,
            ).network_policy,
            StepView::ApplySandbox { object, rw } => object == resources::plan_of(t, rw, s).sandbox,
            StepView::Pin { status, rw } => status == pin_status(rw, t.spec.task.posture()),
            _ => true,
        },
        is_provisioning(run[i]) && pinned(t) is None ==> exists|j: int|
            0 <= j < i && (#[trigger] run[j]) is Pin && carried(run[j]) == carried(run[i]),
    decreases i,
{
    if i > 0 {
        lemma_run_applies(t, s, run, i - 1);
        assert(follows(t, s, run[i - 1], run[i]));
        if is_provisioning(run[i]) && pinned(t) is None {
            if !(run[i - 1] is Pin) {
                assert(is_provisioning(run[i - 1]));
                let j = choose|j: int|
                    0 <= j < i - 1 && (#[trigger] run[j]) is Pin && carried(run[j]) == carried(
                        run[i - 1],
                    );
                assert(run[j] is Pin && carried(run[j]) == carried(run[i]));
            }
        }
    }
}

/// Whether a step belongs to the provisioning of a task, or announces it.
pub open spec fn is_provisioning(step: StepView) -> bool {
    step is Announce || step is ApplyServiceAccount || step is ApplyNetworkPolicy || step
        is ApplySandbox
}

/// Every object that a run applies is the one of the plan for the configuration it carries.
pub proof fn law_runs_apply_the_plan(
    t: CalibanTaskView,
    s: SettingsView,
    run: Seq<StepView>,
    i: int,
)
    requires
        is_run(t, s, run),
        0 <= i < run.len(),
    ensures
        match run[i] {
            StepView::ApplyServiceAccount { object, rw } => object == resources::plan_of(
                t,
                rw,
                s,
            ).service_account,
            StepView::ApplyNetworkPolicy { object, rw } => object == resources::plan_of(
                t,
                rw,
                s,
            ).network_policy,
            StepView::ApplySandbox { object, rw } => object == resources::plan_of(t, rw, s).sandbox,
            _ => true,
        },
{
    lemma_run_applies(t, s, run, i);
}

/// Nothing is provisioned before it is pinned: a task that was not pinned gets its pin, with the
/// configuration and the posture that it is provisioned with, before anything is applied for it.
pub proof fn law_pinned_before_provisioned(
    t: CalibanTaskView,
    s: SettingsView,
    run: Seq<StepView>,
    i: int,
)
    requires
        is_run(t, s, run),
        0 <= i < run.len(),
        is_provisioning(run[i]),
        pinned(t) is None,
    ensures
        exists|j: int|
            0 <= j < i && #[trigger] run[j] == pinning(t, carried(run[i])->0),
{
    lemma_run_applies(t, s, run, i);
    let j = choose|j: int|
        0 <= j < i && (#[trigger] run[j]) is Pin && carried(run[j]) == carried(run[i]);
    lemma_run_applies(t, s, run, j);
    assert(run[j] == pinning(t, carried(run[i])->0));
}

/// A task whose posture is not permitted fails with its own reason, is not pinned by that, and is
/// looked at again soon.
pub proof fn law_denied_posture_is_not_pinned(t: CalibanTaskView, ws: Option<WorkspaceView>)
    requires
        controller::admission_of(
            ws,
            t.spec.provider_ref,
            t.spec.workspace_ref.name,
        ) matches AdmissionView::Pin(rw) && !posture_permitted(t, rw),
    ensures
        carried(after_workspace(t, ws)) is None,
        written_by(after_workspace(t, ws)) matches Some(status) ==> {
            &&& status.resolved_workspace == pinned(t)
            &&& status.phase == crate::crd::Phase::Failed
            &&& status.conditions == seq![
                controller::ready_condition(
                    "False"@,
                    "PostureNotPermitted"@,
                    Some(posture_message(t)),
                ),
            ]
        },
        match after_workspace(t, ws) {
            StepView::WriteStatus { status, events, action } => action == Action::Requeue(30),
            StepView::Finish(action) => action == Action::Requeue(30),
            _ => false,
        },
{
}

/// A task is pinned once: no run of a pinned task looks at its workspace, every step that carries a
/// configuration carries the pinned one, and no status that is written loses it.
pub proof fn law_pinned_once(t: CalibanTaskView, s: SettingsView, run: Seq<StepView>, i: int)
    requires
        is_run(t, s, run),
        0 <= i < run.len(),
        pinned(t) is Some,
    ensures
        !(run[i] is FetchWorkspace),
        carried(run[i]) matches Some(rw) ==> pinned(t) == Some(rw),
        written_by(run[i]) matches Some(status) ==> status.resolved_workspace == pinned(t),
{
    lemma_run_carries(t, s, run, i);
    if i > 0 {
        lemma_run_carries(t, s, run, i - 1);
        assert(follows(t, s, run[i - 1], run[i]));
    }
}

/// The status that pins a task, and the one that is written when it is provisioned, carry the
/// configuration and the posture that the task was admitted with.
pub proof fn law_pin_is_recorded(
    t: CalibanTaskView,
    s: SettingsView,
    rw: ResolvedWorkspaceView,
    sandbox: SandboxView,
)
    ensures
        written_by(pinning(t, rw)) matches Some(status) && status.resolved_workspace == Some(rw)
            && status.permission_posture == Some(t.spec.task.posture()),
        written_by(after_sandbox(t, rw, sandbox, s)) matches Some(status) ==> {
            &&& status.resolved_workspace == Some(rw)
            &&& status.permission_posture == Some(t.spec.task.posture())
        },
        written_by(after_sandbox(t, rw, sandbox, s)) is None ==> admitted_posture(t) == Some(
            t.spec.task.posture(),
        ),
{
}

/// An unattended task is announced before it is provisioned; a supervised one is not.
pub proof fn law_unattended_is_announced(
    t: CalibanTaskView,
    s: SettingsView,
    rw: ResolvedWorkspaceView,
)
    ensures
        t.spec.task.posture() == PermissionPosture::Unattended ==> next_step(
            t,
            s,
            pinning(t, rw),
        ) == (StepView::Announce {
            event: events::unattended_admitted_of(t.spec.workspace_ref.name),
            rw,
        }),
        t.spec.task.posture() == PermissionPosture::Supervised ==> next_step(t, s, pinning(t, rw))
            == provisioning(t, rw),
{
}

/// No status that a run writes carries another manager's condition.
pub proof fn law_only_own_conditions_are_written(
    t: CalibanTaskView,
    s: SettingsView,
    run: Seq<StepView>,
    i: int,
)
    requires
        is_run(t, s, run),
        0 <= i < run.len(),
    ensures
        written_by(run[i]) matches Some(status) ==> controller::only_own_conditions(
            status.conditions,
        ),
{
    lemma_run_applies(t, s, run, i);
    if i > 0 {
        assert(follows(t, s, run[i - 1], run[i]));
    }
}

/// A reconcile converges: once the status of a provisioned task is written, the next reconcile that
/// sees the same Sandbox and the same report on the agents writes nothing, publishes nothing, and
/// waits for the next change.
pub proof fn law_reconcile_converges(
    t: CalibanTaskView,
    s: SettingsView,
    rw: ResolvedWorkspaceView,
    sandbox: SandboxView,
    others: Seq<crate::crd::ConditionView>,
)
    requires
        controller::no_own_conditions(others),
        controller::same_report(t, others),
    ensures
        after_sandbox(
            controller::written(t, provisioned_status(t, rw, sandbox, s), others),
            rw,
            sandbox,
            s,
        ) == StepView::Finish(Action::Requeue(RESYNC)),
{
    let status = provisioned_status(t, rw, sandbox, s);
    controller::law_written_status_is_stable(t, Some(sandbox), s, status, others);
}

/// A task that is provisioned and has not changed is left alone: a run that sees it as it was
/// written, and finds its Sandbox as it was, applies its objects again, writes no status, publishes
/// nothing, and waits for the next change.
pub proof fn law_settled_task_is_left_alone(
    t: CalibanTaskView,
    s: SettingsView,
    rw: ResolvedWorkspaceView,
    sandbox: SandboxView,
    others: Seq<crate::crd::ConditionView>,
    run: Seq<StepView>,
    i: int,
)
    requires
        controller::no_own_conditions(others),
        controller::same_report(t, others),
        t.metadata.uid is Some,
        config::name_problem(t) is None,
        task_state_problem(t) is None,
        posture_permitted(t, rw),
        is_run(
            controller::written(t, provisioned_status(t, rw, sandbox, s), others),
            s,
            run,
        ),
        forall|k: int, l: int|
            0 <= k && l == k + 1 && l < run.len() && (#[trigger] run[k]) is ApplySandbox ==> (
            #[trigger] run[l]) == after_sandbox(
                controller::written(t, provisioned_status(t, rw, sandbox, s), others),
                carried(run[k])->0,
                sandbox,
                s,
            ),
        0 <= i < run.len(),
    ensures
        run[i] is ApplyServiceAccount || run[i] is ApplyNetworkPolicy || run[i] is ApplySandbox
            || run[i] == StepView::Finish(Action::Requeue(RESYNC)),
        carried(run[i]) matches Some(x) ==> x == rw,
    decreases i,
{
    let u = controller::written(t, provisioned_status(t, rw, sandbox, s), others);
    if i > 0 {
        law_settled_task_is_left_alone(t, s, rw, sandbox, others, run, i - 1);
        assert(follows(u, s, run[i - 1], run[i]));
        law_reconcile_converges(t, s, rw, sandbox, others);
    }
}

/// A failure is written and published once: while it lasts, further reconciles only wait.
pub proof fn law_failure_is_written_once(
    t: CalibanTaskView,
    reason: Seq<char>,
    message: Seq<char>,
    action: Action,
    others: Seq<crate::crd::ConditionView>,
)
    requires
        controller::no_own_conditions(others),
    ensures
        written_by(failing(t, reason, message, action)) matches Some(status) ==> failing(
            controller::written(t, status, others),
            reason,
            message,
            action,
        ) == StepView::Finish(action),
{
    if let Some(status) = written_by(failing(t, reason, message, action)) {
        controller::law_recorded_failure_is_stable(t, reason, message, status, others);
    }
}

/// Whether a step fails the task for that reason: it writes, unless that is what was observed, that
/// the task is `Failed` and not `Ready`, with the reason and the message; it publishes one warning
/// that says the same; it leaves the pin and the posture as they were; and then the task is looked
/// at again as given.
pub open spec fn fails(
    t: CalibanTaskView,
    step: StepView,
    reason: Seq<char>,
    message: Seq<char>,
    action: Action,
) -> bool {
    match step {
        StepView::WriteStatus { status, events, action: then } => {
            &&& then == action
            &&& status.phase == crate::crd::Phase::Failed
            &&& status.conditions.len() == 1
            &&& status.conditions[0].type_ == "Ready"@
            &&& status.conditions[0].status == "False"@
            &&& status.conditions[0].reason == Some(reason)
            &&& status.conditions[0].message == Some(message)
            &&& status.caliband_endpoint is None && status.sandbox_ref is None
                && status.checkpoint_ref is None
            &&& t.status matches Some(st) ==> status.resolved_workspace == st.resolved_workspace
                && status.permission_posture == st.permission_posture
            &&& t.status is None ==> status.resolved_workspace is None && status.permission_posture
                is None
            &&& events.len() == 1
            &&& events[0].type_ == events::EventType::Warning
            &&& events[0].reason == reason
            &&& events[0].note == Some(events::fit(message, 1024))
        },
        StepView::Finish(then) => {
            &&& then == action
            &&& t.status is Some
            &&& t.status->0.phase == crate::crd::Phase::Failed
            &&& controller::derived_failure(t, reason, message) is None
        },
        _ => false,
    }
}

proof fn lemma_fails(
    t: CalibanTaskView,
    reason: Seq<char>,
    message: Seq<char>,
    action: Action,
)
    ensures
        fails(t, failing(t, reason, message, action), reason, message, action),
{
    controller::law_failure(t, reason, message);
}

/// Whether a task that asks to run unattended is allowed to: it need not be if it does not ask.
pub open spec fn is_allowed(t: CalibanTaskView, rw: ResolvedWorkspaceView) -> bool {
    t.spec.task.permission_posture == Some(PermissionPosture::Unattended) ==> (
    rw.agent_policy matches Some(p) && p.allow_unattended)
}

/// The text that a task gets whose posture is not allowed.
pub open spec fn denial(t: CalibanTaskView) -> Seq<char> {
    "permission posture unattended is not permitted by the agent policy of workspace '"@
        + t.spec.workspace_ref.name + "'"@
}

/// How a reconcile starts. Without a UID it is an error that names the task; a name or a state that
/// cannot be provisioned fails the task until it changes; a pinned task is provisioned with its pin,
/// or fails if that does not allow its posture; and any other fetches the workspace it names.
pub proof fn law_start(t: CalibanTaskView)
    ensures
        ({
            let first = start_of(t);
            let too_long = text::byte_len(t.metadata.name_any()) > 59;
            if t.metadata.uid is None {
                first == StepView::Abort(ErrorView::MissingUid(t.metadata.name_any()))
            } else if too_long {
                fails(
                    t,
                    first,
                    "InvalidName"@,
                    config::name_problem(t)->0,
                    Action::AwaitChange,
                )
            } else if t.spec.state is Some && t.spec.state->0.problem() is Some {
                fails(
                    t,
                    first,
                    "InvalidState"@,
                    t.spec.state->0.problem()->0,
                    Action::AwaitChange,
                )
            } else if t.status is Some && t.status->0.resolved_workspace is Some {
                let rw = t.status->0.resolved_workspace->0;
                if is_allowed(t, rw) {
                    first is ApplyServiceAccount && carried(first) == Some(rw)
                } else {
                    fails(t, first, "PostureNotPermitted"@, denial(t), Action::Requeue(30))
                }
            } else {
                first == (StepView::FetchWorkspace { name: t.spec.workspace_ref.name })
            }
        }),
{
    config::law_name_fits(t);
    if let Some(p) = config::name_problem(t) {
        lemma_fails(t, "InvalidName"@, p, Action::AwaitChange);
    }
    if let Some(p) = task_state_problem(t) {
        lemma_fails(t, "InvalidState"@, p, Action::AwaitChange);
    }
    lemma_fails(t, "PostureNotPermitted"@, denial(t), Action::Requeue(30));
}

/// What follows from the workspace. One that is not validated yet is waited for, ten seconds at a
/// time. One that is missing, failed or does not resolve fails the task, and so does one whose
/// policy does not allow its posture; that is looked at again after half a minute. Otherwise the
/// Secret of the task's token is fetched, if it has one, and else the task is pinned.
pub proof fn law_workspace_answer(t: CalibanTaskView, ws: Option<WorkspaceView>)
    ensures
        ({
            let next = after_workspace(t, ws);
            let soon = Action::Requeue(30);
            let ready = ws is Some && ws->0.status is Some && ws->0.status->0.phase
                == crate::workspace::WorkspacePhase::Ready;
            let waiting = ws is Some && (ws->0.status is None || ws->0.status->0.phase
                == crate::workspace::WorkspacePhase::Pending);
            let token = t.spec.state is Some && t.spec.state->0.token_ref is Some;
            if waiting {
                next == StepView::Finish(Action::Requeue(10))
            } else if !ready {
                match controller::admission_of(ws, t.spec.provider_ref, t.spec.workspace_ref.name) {
                    AdmissionView::Fail(why) => fails(t, next, "WorkspaceUnresolved"@, why, soon),
                    _ => false,
                }
            } else {
                match crate::workspace::resolve(ws->0.spec, t.spec.provider_ref) {
                    Err(why) => fails(t, next, "WorkspaceUnresolved"@, why, soon),
                    Ok(rw) => if !is_allowed(t, rw) {
                        fails(t, next, "PostureNotPermitted"@, denial(t), soon)
                    } else if token {
                        next == (StepView::FetchSecret {
                            name: t.spec.state->0.token_ref->0.secret_name,
                            rw,
                        })
                    } else {
                        next is Pin && carried(next) == Some(rw)
                    },
                }
            }
        }),
{
    let a = controller::admission_of(ws, t.spec.provider_ref, t.spec.workspace_ref.name);
    controller::law_admission(ws, t.spec.provider_ref, t.spec.workspace_ref.name);
    if let AdmissionView::Fail(why) = a {
        lemma_fails(t, "WorkspaceUnresolved"@, why, Action::Requeue(30));
    }
    lemma_fails(t, "PostureNotPermitted"@, denial(t), Action::Requeue(30));
}

/// What follows from the Secret of a task's token: without it, or without the key in it, the task
/// fails and is looked at again after half a minute; otherwise it is pinned to the configuration
/// that was resolved.
pub proof fn law_secret_answer(
    t: CalibanTaskView,
    rw: ResolvedWorkspaceView,
    secret: Option<SecretView>,
)
    requires
        t.spec.state is Some,
        t.spec.state->0.token_ref is Some,
    ensures
        ({
            let next = after_secret(t, rw, secret);
            match storage::token_problem(secret, t.spec.state->0.token_ref->0) {
                Some(why) => fails(t, next, "StateTokenUnavailable"@, why, Action::Requeue(30)),
                None => next is Pin && carried(next) == Some(rw),
            }
        }),
{
    if let Some(why) = storage::token_problem(secret, t.spec.state->0.token_ref->0) {
        lemma_fails(t, "StateTokenUnavailable"@, why, Action::Requeue(30));
    }
}

/// A pin records the configuration and the posture, and nothing else; the task is still pending.
pub proof fn law_pin(t: CalibanTaskView, ws: Option<WorkspaceView>)
    ensures
        after_workspace(t, ws) matches StepView::Pin { status, rw } ==> {
            &&& status.resolved_workspace == Some(rw)
            &&& status.permission_posture == Some(
                if t.spec.task.permission_posture == Some(PermissionPosture::Unattended) {
                    PermissionPosture::Unattended
                } else {
                    PermissionPosture::Supervised
                },
            )
            &&& status.phase == crate::crd::Phase::Pending
            &&& status.conditions.len() == 0
            &&& status.caliband_endpoint is None && status.sandbox_ref is None
                && status.checkpoint_ref is None
        },
{
    if t.spec.task.permission_posture is Some {
        assert(t.spec.task.permission_posture->0 == PermissionPosture::Unattended
            || t.spec.task.permission_posture->0 == PermissionPosture::Supervised);
    }
}

/// The steps that need no answer follow in one order: the pin, for an unattended task its
/// announcement, the ServiceAccount, the policy, and the Sandbox, all for the same configuration.
/// Events are published one by one, and then the reconcile ends as it was to.
pub proof fn law_order_of_steps(t: CalibanTaskView, s: SettingsView, step: StepView)
    ensures
        ({
            let next = next_step(t, s, step);
            let unattended = t.spec.task.permission_posture == Some(PermissionPosture::Unattended);
            match step {
                StepView::Pin { status, rw } => {
                    &&& carried(next) == Some(rw)
                    &&& unattended ==> next is Announce
                    &&& !unattended ==> next is ApplyServiceAccount
                },
                StepView::Announce { event, rw } => next is ApplyServiceAccount && carried(next)
                    == Some(rw),
                StepView::ApplyServiceAccount { object, rw } => next is ApplyNetworkPolicy
                    && carried(next) == Some(rw),
                StepView::ApplyNetworkPolicy { object, rw } => next is ApplySandbox && carried(next)
                    == Some(rw),
                StepView::WriteStatus { status, events, action } => if events.len() == 0 {
                    next == StepView::Finish(action)
                } else {
                    next == (StepView::Publish {
                        event: events[events.len() - 1],
                        events: events.take(events.len() - 1),
                        action,
                    })
                },
                StepView::Publish { event, events, action } => if events.len() == 0 {
                    next == StepView::Finish(action)
                } else {
                    next == (StepView::Publish {
                        event: events[events.len() - 1],
                        events: events.take(events.len() - 1),
                        action,
                    })
                },
                _ => next == step,
            }
        }),
{
    if let StepView::WriteStatus { status, events, action } = step {
        if events.len() > 0 {
            assert(events.drop_last() =~= events.take(events.len() - 1));
        }
    }
    if let StepView::Publish { event, events, action } = step {
        if events.len() > 0 {
            assert(events.drop_last() =~= events.take(events.len() - 1));
        }
    }
}

/// What follows from the Sandbox. The status that is derived from it is written, with the pin and the
/// posture, exactly if it differs from what was observed or another posture was recorded; a move to
/// another phase is published after it, and so is that a pinned task has become unattended. Either
/// way the task is looked at again after five minutes.
pub proof fn law_sandbox_answer(
    t: CalibanTaskView,
    rw: ResolvedWorkspaceView,
    sandbox: SandboxView,
    s: SettingsView,
)
    ensures
        ({
            let unattended = t.spec.task.permission_posture == Some(PermissionPosture::Unattended);
            let posture = if unattended {
                PermissionPosture::Unattended
            } else {
                PermissionPosture::Supervised
            };
            let derived = controller::next_status(t, Some(sandbox), s);
            let before = if t.status is Some {
                Some(t.status->0.phase)
            } else {
                None
            };
            let recorded = if t.status is Some {
                t.status->0.permission_posture
            } else {
                None
            };
            let was_pinned = t.status is Some && t.status->0.resolved_workspace is Some;
            let told = unattended && was_pinned && recorded != Some(PermissionPosture::Unattended);
            match after_sandbox(t, rw, sandbox, s) {
                StepView::Finish(action) => {
                    &&& action == Action::Requeue(300)
                    &&& controller::derived_status(t, Some(sandbox), s) is None
                    &&& recorded == Some(posture)
                },
                StepView::WriteStatus { status, events, action } => {
                    &&& action == Action::Requeue(300)
                    &&& controller::derived_status(t, Some(sandbox), s) is Some || recorded != Some(
                        posture,
                    )
                    &&& status.phase == derived.phase
                    &&& status.conditions == derived.conditions
                    &&& status.caliband_endpoint == derived.caliband_endpoint
                    &&& status.sandbox_ref == derived.sandbox_ref
                    &&& status.checkpoint_ref == derived.checkpoint_ref
                    &&& status.resolved_workspace == Some(rw)
                    &&& status.permission_posture == Some(posture)
                    &&& events.len() == (if before != Some(derived.phase) {
                        1int
                    } else {
                        0int
                    }) + (if told {
                        1int
                    } else {
                        0int
                    })
                    &&& before != Some(derived.phase) ==> events[0].reason == "PhaseChanged"@ && Some(
                        events[0],
                    ) == events::phase_change_of(before, derived.phase)
                    &&& told ==> events.last() == events::unattended_admitted_of(
                        t.spec.workspace_ref.name,
                    )
                },
                _ => false,
            }
        }),
{
    if t.spec.task.permission_posture is Some {
        assert(t.spec.task.permission_posture->0 == PermissionPosture::Unattended
            || t.spec.task.permission_posture->0 == PermissionPosture::Supervised);
    }
}

} // verus!
