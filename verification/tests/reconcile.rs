use caliban_operator::config::Settings;
use caliban_operator::crd::{
    CalibanTask, CalibanTaskSpec, CalibanTaskStatus, Condition, PermissionPosture, Phase, StateSpec,
    TaskSpec, WorkspaceRef,
};
use caliban_operator::error::Error;
use caliban_operator::events::EventType;
use caliban_operator::objects::Secret;
use caliban_operator::reconcile::{
    advance, error_policy, sandbox_applied, secret_fetched, start, workspace_fetched, Action, Step,
};
use caliban_operator::sandbox::{Sandbox, SandboxStatus};
use caliban_operator::workspace::{
    AgentPolicy, CredentialsRef, Provider, Source, Workspace, WorkspacePhase, WorkspaceSpec,
    WorkspaceStatus,
};

fn task() -> CalibanTask {
    let mut t = CalibanTask::new(
        "refactor-auth",
        CalibanTaskSpec {
            workspace_ref: WorkspaceRef {
                name: "team-a-ws".into(),
            },
            provider_ref: None,
            task: TaskSpec {
                prompt: "hi".into(),
                agent_type: None,
                interactive: None,
                permission_posture: None,
            },
            model: None,
            state: None,
            isolation: None,
            resources: None,
            lifecycle: None,
            tools: None,
        },
    );
    t.metadata.namespace = Some("team-a".into());
    t.metadata.uid = Some("uid-123".into());
    t
}

fn unattended() -> CalibanTask {
    let mut t = task();
    t.spec.task.permission_posture = Some(PermissionPosture::Unattended);
    t
}

fn workspace(phase: WorkspacePhase, allow_unattended: bool) -> Workspace {
    let mut ws = Workspace::new(
        "team-a-ws",
        WorkspaceSpec {
            display_name: "Team A".into(),
            sources: vec![Source {
                name: "caliban".into(),
                repo: "git@x:caliban".into(),
                git_ref: "main".into(),
                path: "/work/caliban".into(),
            }],
            providers: vec![Provider {
                name: "workers".into(),
                kind: "openai".into(),
                base_url: None,
                model: None,
                credentials_ref: None,
            }],
            default_provider: None,
            env: vec![],
            isolation: None,
            egress: None,
            agent_policy: Some(AgentPolicy { allow_unattended }),
        },
    );
    ws.status = Some(WorkspaceStatus {
        phase,
        ..Default::default()
    });
    ws
}

/// A cluster that answers what it is asked, and keeps a record.
struct Cluster {
    workspace: Option<Workspace>,
    secret: Option<Secret>,
    sandbox_up: bool,
    log: Vec<String>,
    status: Option<CalibanTaskStatus>,
}

impl Cluster {
    fn new(workspace: Option<Workspace>) -> Cluster {
        Cluster {
            workspace,
            secret: None,
            sandbox_up: true,
            log: vec![],
            status: None,
        }
    }

    fn live(&self, mut sb: Sandbox) -> Sandbox {
        if self.sandbox_up {
            sb.status = Some(SandboxStatus {
                service_fqdn: Some("refactor-auth-sbx.team-a.svc".into()),
                conditions: vec![Condition {
                    type_: "Ready".into(),
                    status: "True".into(),
                    reason: None,
                    message: None,
                }],
            });
        }
        sb
    }

    fn reconcile(&mut self, t: &CalibanTask) -> Result<Action, Error> {
        let s = Settings::default();
        let mut step = start(t);
        for _ in 0..13 {
            step = match step {
                Step::FetchWorkspace { name } => {
                    self.log.push(format!("get workspace {name}"));
                    workspace_fetched(t, self.workspace.as_ref())
                }
                Step::FetchSecret { name, rw } => {
                    self.log.push(format!("get secret {name}"));
                    secret_fetched(t, rw, self.secret.as_ref())
                }
                Step::ApplySandbox { object, rw } => {
                    self.log.push("apply sandbox".to_string());
                    let live = self.live(object);
                    sandbox_applied(t, rw, &live, &s)
                }
                Step::Finish(action) => return Ok(action),
                Step::Abort(err) => return Err(err),
                other => {
                    match &other {
                        Step::Pin { status, .. } => {
                            self.log.push("pin".to_string());
                            self.status = Some(status.clone());
                        }
                        Step::WriteStatus { status, .. } => {
                            self.log.push(format!("status {}", status.phase.name()));
                            self.status = Some(status.clone());
                        }
                        Step::Announce { event, .. } | Step::Publish { event, .. } => {
                            self.log.push(format!("event {}", event.reason));
                        }
                        Step::ApplyServiceAccount { .. } => {
                            self.log.push("apply service account".to_string())
                        }
                        Step::ApplyNetworkPolicy { .. } => {
                            self.log.push("apply network policy".to_string())
                        }
                        _ => unreachable!(),
                    }
                    advance(t, &s, other)
                }
            };
        }
        panic!("the reconcile does not end")
    }
}

#[test]
fn a_new_task_is_pinned_and_provisioned() {
    let t = task();
    let mut c = Cluster::new(Some(workspace(WorkspacePhase::Ready, false)));
    assert_eq!(c.reconcile(&t), Ok(Action::Requeue(300)));
    assert_eq!(
        c.log,
        vec![
            "get workspace team-a-ws",
            "pin",
            "apply service account",
            "apply network policy",
            "apply sandbox",
            "status Running",
            "event PhaseChanged",
        ]
    );
    let st = c.status.unwrap();
    assert_eq!(st.phase, Phase::Running);
    assert_eq!(st.resolved_workspace.unwrap().provider.name, "workers");
    assert_eq!(st.permission_posture, Some(PermissionPosture::Supervised));
}

#[test]
fn a_provisioned_task_settles() {
    let mut t = task();
    let mut c = Cluster::new(Some(workspace(WorkspacePhase::Ready, false)));
    c.reconcile(&t).unwrap();
    t.status = c.status.clone();
    // Another manager's condition makes no difference.
    t.status.as_mut().unwrap().conditions.push(Condition {
        type_: "Other".into(),
        status: "True".into(),
        reason: None,
        message: None,
    });
    c.log.clear();
    assert_eq!(c.reconcile(&t), Ok(Action::Requeue(300)));
    assert_eq!(
        c.log,
        vec!["apply service account", "apply network policy", "apply sandbox"]
    );
}

#[test]
fn a_pinned_task_keeps_its_configuration() {
    let mut t = task();
    let mut c = Cluster::new(Some(workspace(WorkspacePhase::Ready, false)));
    c.reconcile(&t).unwrap();
    t.status = c.status.clone();
    // The workspace is gone, and the Sandbox loses readiness.
    c.workspace = None;
    c.sandbox_up = false;
    c.log.clear();
    assert_eq!(c.reconcile(&t), Ok(Action::Requeue(300)));
    assert!(!c.log.iter().any(|l| l.starts_with("get ")), "{:?}", c.log);
    let st = c.status.unwrap();
    assert_eq!(st.phase, Phase::Provisioning);
    assert_eq!(st.resolved_workspace.unwrap().provider.name, "workers");
}

#[test]
fn a_task_without_a_uid_is_an_error() {
    let mut t = task();
    t.metadata.uid = None;
    let mut c = Cluster::new(None);
    assert_eq!(
        c.reconcile(&t),
        Err(Error::MissingUid("refactor-auth".into()))
    );
    assert!(c.log.is_empty());
}

#[test]
fn a_name_that_cannot_be_provisioned_fails_the_task_until_it_changes() {
    let mut t = task();
    t.metadata.name = Some("a".repeat(60));
    let mut c = Cluster::new(None);
    assert_eq!(c.reconcile(&t), Ok(Action::AwaitChange));
    assert_eq!(c.log, vec!["status Failed", "event InvalidName"]);
    t.status = c.status.clone();
    c.log.clear();
    assert_eq!(c.reconcile(&t), Ok(Action::AwaitChange));
    assert!(c.log.is_empty());
}

#[test]
fn a_state_that_cannot_be_projected_fails_the_task_until_it_changes() {
    let mut t = task();
    t.spec.state = Some(StateSpec {
        gonzalo_endpoint: None,
        mode: Some("remote".into()),
        token_ref: None,
    });
    let mut c = Cluster::new(None);
    assert_eq!(c.reconcile(&t), Ok(Action::AwaitChange));
    assert_eq!(c.log, vec!["status Failed", "event InvalidState"]);
    let st = c.status.unwrap();
    assert_eq!(
        st.conditions[0].message.as_deref(),
        Some("state.mode remote requires state.gonzaloEndpoint")
    );
}

#[test]
fn an_unready_workspace_is_waited_for() {
    let mut c = Cluster::new(Some(workspace(WorkspacePhase::Pending, true)));
    assert_eq!(c.reconcile(&task()), Ok(Action::Requeue(10)));
    assert_eq!(c.log, vec!["get workspace team-a-ws"]);
}

#[test]
fn an_unresolved_workspace_fails_the_task_once() {
    let mut t = task();
    let mut c = Cluster::new(None);
    assert_eq!(c.reconcile(&t), Ok(Action::Requeue(30)));
    assert_eq!(
        c.log,
        vec!["get workspace team-a-ws", "status Failed", "event WorkspaceUnresolved"]
    );
    t.status = c.status.clone();
    assert!(t.status.as_ref().unwrap().resolved_workspace.is_none());
    c.log.clear();
    assert_eq!(c.reconcile(&t), Ok(Action::Requeue(30)));
    assert_eq!(c.log, vec!["get workspace team-a-ws"]);
    // The workspace appears, and the task recovers.
    c.workspace = Some(workspace(WorkspacePhase::Ready, false));
    assert_eq!(c.reconcile(&t), Ok(Action::Requeue(300)));
    assert_eq!(c.status.unwrap().phase, Phase::Running);
}

#[test]
fn an_unattended_task_needs_a_policy() {
    let t = unattended();
    let mut c = Cluster::new(Some(workspace(WorkspacePhase::Ready, false)));
    assert_eq!(c.reconcile(&t), Ok(Action::Requeue(30)));
    assert_eq!(
        c.log,
        vec!["get workspace team-a-ws", "status Failed", "event PostureNotPermitted"]
    );
    let st = c.status.clone().unwrap();
    assert!(st.resolved_workspace.is_none());
    assert_eq!(st.conditions[0].reason.as_deref(), Some("PostureNotPermitted"));
    assert!(st.conditions[0].message.as_ref().unwrap().contains("team-a-ws"));
}

#[test]
fn an_admitted_unattended_task_is_announced_and_recorded() {
    let t = unattended();
    let mut c = Cluster::new(Some(workspace(WorkspacePhase::Ready, true)));
    assert_eq!(c.reconcile(&t), Ok(Action::Requeue(300)));
    assert_eq!(
        c.log,
        vec![
            "get workspace team-a-ws",
            "pin",
            "event UnattendedAdmitted",
            "apply service account",
            "apply network policy",
            "apply sandbox",
            "status Running",
            "event PhaseChanged",
        ]
    );
    assert_eq!(
        c.status.unwrap().permission_posture,
        Some(PermissionPosture::Unattended)
    );
}

#[test]
fn a_running_task_made_unattended_is_held_against_its_pin() {
    for allowed in [false, true] {
        let mut t = task();
        let mut c = Cluster::new(Some(workspace(WorkspacePhase::Ready, allowed)));
        c.reconcile(&t).unwrap();
        t.status = c.status.clone();
        t.spec.task.permission_posture = Some(PermissionPosture::Unattended);
        // What the workspace says by now does not matter.
        c.workspace = Some(workspace(WorkspacePhase::Ready, !allowed));
        c.log.clear();
        if allowed {
            assert_eq!(c.reconcile(&t), Ok(Action::Requeue(300)));
            assert_eq!(
                c.log,
                vec![
                    "apply service account",
                    "apply network policy",
                    "apply sandbox",
                    "status Running",
                    "event UnattendedAdmitted",
                ]
            );
        } else {
            assert_eq!(c.reconcile(&t), Ok(Action::Requeue(30)));
            assert_eq!(c.log, vec!["status Failed", "event PostureNotPermitted"]);
            let st = c.status.clone().unwrap();
            // The task stays pinned, so that making it supervised again recovers it.
            assert!(st.resolved_workspace.is_some());
            assert_eq!(st.permission_posture, Some(PermissionPosture::Supervised));
        }
    }
}

#[test]
fn the_storage_token_has_to_be_there_before_the_task_is_pinned() {
    let mut t = task();
    t.spec.state = Some(StateSpec {
        gonzalo_endpoint: Some("http://g:8080".into()),
        mode: None,
        token_ref: Some(CredentialsRef {
            secret_name: "gz".into(),
            key: "token".into(),
        }),
    });
    let mut c = Cluster::new(Some(workspace(WorkspacePhase::Ready, false)));
    assert_eq!(c.reconcile(&t), Ok(Action::Requeue(30)));
    assert_eq!(
        c.log,
        vec![
            "get workspace team-a-ws",
            "get secret gz",
            "status Failed",
            "event StateTokenUnavailable",
        ]
    );
    assert!(c.status.as_ref().unwrap().resolved_workspace.is_none());
    c.secret = Some(Secret {
        data: Some(vec!["token".to_string()]),
        string_data: None,
    });
    assert_eq!(c.reconcile(&t), Ok(Action::Requeue(300)));
    assert!(c.status.unwrap().resolved_workspace.is_some());
}

#[test]
fn an_error_is_reported_and_retried() {
    let (event, action) = error_policy(&Error::Kube("no route".into()));
    assert_eq!(event.type_, EventType::Warning);
    assert_eq!(event.reason, "ReconcileError");
    assert_eq!(event.note.as_deref(), Some("kube api: no route"));
    assert_eq!(action, Action::Requeue(30));
}
