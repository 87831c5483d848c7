use std::time::Duration;

use caliban_operator::config::Settings;
use caliban_operator::controller::{
    admit_task, derive_failed_status, derive_status, status_apply_body, Admission, RESYNC,
};
use caliban_operator::crd::{
    CalibanTask, CalibanTaskSpec, CalibanTaskStatus, Condition, PermissionPosture, Phase, TaskSpec,
    WorkspaceRef,
};
use caliban_operator::error::Error;
use caliban_operator::objects::PodTemplateSpec;
use caliban_operator::sandbox::{Sandbox, SandboxSpec, SandboxStatus};
use caliban_operator::workspace::{
    resolve_workspace, AgentPolicy, CredentialsRef, EgressRule, EgressSpec, EnvEntry, Provider,
    Source, Workspace, WorkspacePhase, WorkspaceSpec, WorkspaceStatus,
};

fn workspace(phase: WorkspacePhase, message: Option<&str>) -> Workspace {
    let mut ws = Workspace::new(
        "team-a-ws",
        WorkspaceSpec {
            display_name: "Team A".into(),
            sources: vec![Source {
                name: "caliban".into(),
                repo: "git@x:caliban".into(),
                git_ref: "main".into(),
                path: "/work/caliban".into(),
            }],
            providers: vec![Provider {
                name: "workers".into(),
                kind: "openai".into(),
                base_url: None,
                model: None,
                credentials_ref: None,
            }],
            default_provider: None,
            env: vec![],
            isolation: None,
            egress: None,
            agent_policy: None,
        },
    );
    ws.status = Some(WorkspaceStatus {
        phase,
        message: message.map(String::from),
        ..Default::default()
    });
    ws
}

#[test]
fn admit_pins_a_ready_workspace() {
    let ws = workspace(WorkspacePhase::Ready, None);
    match admit_task(Some(&ws), None, "team-a-ws") {
        Admission::Pin(rw) => assert_eq!(rw.provider.name, "workers"),
        _ => panic!("expected Pin"),
    }
}

#[test]
fn admit_requeues_a_pending_workspace() {
    let ws = workspace(WorkspacePhase::Pending, None);
    assert!(matches!(
        admit_task(Some(&ws), None, "team-a-ws"),
        Admission::Requeue
    ));
}

#[test]
fn admit_fails_a_failed_workspace_and_surfaces_its_message() {
    let ws = workspace(
        WorkspacePhase::Failed,
        Some("provider 'workers': secret 'k' key 'v' not found"),
    );
    match admit_task(Some(&ws), None, "team-a-ws") {
        Admission::Fail(msg) => assert_eq!(
            msg,
            "workspace 'team-a-ws' not ready: provider 'workers': secret 'k' key 'v' not found"
        ),
        _ => panic!("expected Fail"),
    }
}

#[test]
fn admit_fails_a_missing_workspace() {
    match admit_task(None, None, "gone-ws") {
        Admission::Fail(msg) => assert_eq!(msg, "Workspace not found: 'gone-ws'"),
        _ => panic!("expected Fail"),
    }
}

#[test]
fn admit_fails_a_ready_workspace_with_a_dangling_provider_ref() {
    let ws = workspace(WorkspacePhase::Ready, None);
    match admit_task(Some(&ws), Some("nope"), "team-a-ws") {
        Admission::Fail(msg) => {
            assert_eq!(msg, "providerRef 'nope' names no provider in the workspace")
        }
        _ => panic!("expected Fail"),
    }
}

fn task_without_status() -> CalibanTask {
    let mut t = CalibanTask::new(
        "refactor-auth",
        CalibanTaskSpec {
            workspace_ref: WorkspaceRef {
                name: "team-a-ws".into(),
            },
            provider_ref: None,
            task: TaskSpec {
                prompt: "hi".into(),
                agent_type: None,
                interactive: None,
                permission_posture: None,
            },
            model: None,
            state: None,
            isolation: None,
            resources: None,
            lifecycle: None,
            tools: None,
        },
    );
    t.metadata.namespace = Some("team-a".into());
    t.metadata.uid = Some("uid-123".into());
    t.status = None;
    t
}

/// A Sandbox as agent-sandbox reports it: `fqdn`, plus a `Ready` condition
/// with the given status/reason/message when `ready` is `Some`.
fn sandbox_status(fqdn: Option<&str>, ready: Option<(&str, &str, &str)>) -> Sandbox {
    let mut sb = Sandbox::new(
        "refactor-auth-sbx",
        SandboxSpec {
            pod_template: PodTemplateSpec::default(),
            service: Some(true),
            operating_mode: Some("Running".to_string()),
            volume_claim_templates: None,
        },
    );
    sb.metadata.namespace = Some("team-a".into());
    sb.status = Some(SandboxStatus {
        service_fqdn: fqdn.map(|f| f.to_string()),
        conditions: ready
            .map(|(status, reason, message)| {
                vec![Condition {
                    type_: "Ready".into(),
                    status: status.into(),
                    reason: Some(reason.into()),
                    message: Some(message.into()),
                }]
            })
            .unwrap_or_default(),
    });
    sb
}

/// A Sandbox with `fqdn` that agent-sandbox reports *ready* whenever it has
/// one — the healthy case.
fn sandbox_with_fqdn(fqdn: Option<&str>) -> Sandbox {
    let ready = fqdn.map(|_| ("True", "DependenciesReady", "Pod is Ready"));
    sandbox_status(fqdn, ready)
}

/// the Service (and so `serviceFQDN`) exists before caliband can
/// answer. A Sandbox whose own `Ready` is not True must not make the task
/// `Running` — prosperod would dial a dead endpoint.
#[test]
fn sandbox_with_fqdn_but_not_ready_is_provisioning_with_ready_false() {
    let t = task_without_status();
    let sb = sandbox_status(
        Some("refactor-auth-sbx.team-a.svc"),
        Some((
            "False",
            "DependenciesNotReady",
            "Pod is Running but not Ready",
        )),
    );
    let d = derive_status(&t, Some(&sb), &Settings::default()).unwrap();
    assert_eq!(d.phase, Phase::Provisioning);
    assert!(d.caliband_endpoint.is_none(), "no endpoint until ready");
    assert_eq!(d.conditions.len(), 1);
    let c = &d.conditions[0];
    assert_eq!(c.type_, "Ready");
    assert_eq!(c.status, "False");
    assert_eq!(c.reason.as_deref(), Some("SandboxNotReady"));
    assert_eq!(c.message.as_deref(), Some("Pod is Running but not Ready"));
}

#[test]
fn sandbox_with_fqdn_and_no_ready_condition_yet_is_provisioning() {
    // agent-sandbox hasn't computed readiness yet: not evidence of Ready.
    let t = task_without_status();
    let sb = sandbox_status(Some("refactor-auth-sbx.team-a.svc"), None);
    let d = derive_status(&t, Some(&sb), &Settings::default()).unwrap();
    assert_eq!(d.phase, Phase::Provisioning);
    assert!(d.caliband_endpoint.is_none());
}

#[test]
fn running_task_whose_sandbox_loses_readiness_drops_back_to_provisioning() {
    let mut t = task_without_status();
    let fqdn = Some("refactor-auth-sbx.team-a.svc");
    t.status = derive_status(&t, Some(&sandbox_with_fqdn(fqdn)), &Settings::default());
    assert_eq!(t.status.as_ref().unwrap().phase, Phase::Running);
    // caliband crash-loops: the pod is no longer Ready.
    let sb = sandbox_status(
        fqdn,
        Some((
            "False",
            "DependenciesNotReady",
            "Pod is Running but not Ready",
        )),
    );
    let d = derive_status(&t, Some(&sb), &Settings::default())
        .expect("losing readiness is a status change");
    assert_eq!(d.phase, Phase::Provisioning);
    assert!(d.caliband_endpoint.is_none());
    assert_eq!(d.conditions[0].status, "False");
}

#[test]
fn no_sandbox_yields_pending() {
    let t = task_without_status();
    let d = derive_status(&t, None, &Settings::default()).unwrap();
    assert_eq!(d.phase, Phase::Pending);
    assert!(d.caliband_endpoint.is_none());
    assert!(d.conditions.is_empty());
}

#[test]
fn sandbox_without_fqdn_is_provisioning() {
    let t = task_without_status();
    let sb = sandbox_with_fqdn(None);
    let d = derive_status(&t, Some(&sb), &Settings::default()).unwrap();
    assert_eq!(d.phase, Phase::Provisioning);
    assert_eq!(d.sandbox_ref.unwrap().name, "refactor-auth-sbx");
    assert!(d.conditions.is_empty());
}

#[test]
fn sandbox_with_fqdn_is_running_with_endpoint() {
    let t = task_without_status();
    let sb = sandbox_with_fqdn(Some("refactor-auth-sbx.team-a.svc"));
    let d = derive_status(&t, Some(&sb), &Settings::default()).unwrap();
    assert_eq!(d.phase, Phase::Running);
    assert_eq!(
        d.caliband_endpoint.as_deref(),
        Some("refactor-auth-sbx.team-a.svc:8443")
    );
    // Running phase must carry a derived Ready=True condition.
    assert_eq!(d.conditions.len(), 1);
    assert_eq!(d.conditions[0].type_, "Ready");
    assert_eq!(d.conditions[0].status, "True");
}

#[test]
fn controller_unchanged_status_is_noop() {
    let mut t = task_without_status();
    let sb = sandbox_with_fqdn(Some("refactor-auth-sbx.team-a.svc"));
    // First derivation, then apply it as the observed status.
    t.status = derive_status(&t, Some(&sb), &Settings::default());
    assert!(derive_status(&t, Some(&sb), &Settings::default()).is_none());
}

#[test]
fn stale_workspace_unresolved_condition_does_not_survive_into_running() {
    // Regression guard: a task carrying a stale `Ready=False /
    // WorkspaceUnresolved` condition (left over from an earlier fail-fast
    // reconcile) must NOT keep that condition once the workspace resolves
    // and the Sandbox comes up Running. `derive_status` owns
    // `conditions` and must derive them fresh from the phase it computes,
    // not carry forward whatever was in the stale in-memory status.
    let mut t = task_without_status();
    t.status = Some(CalibanTaskStatus {
        phase: Phase::Failed,
        conditions: vec![Condition {
            type_: "Ready".into(),
            status: "False".into(),
            reason: Some("WorkspaceUnresolved".into()),
            message: Some("workspaceRef 'team-a-ws' / providerRef unresolved".into()),
        }],
        ..Default::default()
    });
    let sb = sandbox_with_fqdn(Some("refactor-auth-sbx.team-a.svc"));
    let d = derive_status(&t, Some(&sb), &Settings::default()).unwrap();
    assert_eq!(d.phase, Phase::Running);
    assert!(
        !d.conditions
            .iter()
            .any(|c| c.reason.as_deref() == Some("WorkspaceUnresolved")),
        "stale WorkspaceUnresolved condition survived into Running: {:?}",
        d.conditions
    );
    assert_eq!(d.conditions.len(), 1);
    assert_eq!(d.conditions[0].status, "True");
}

#[test]
fn sandbox_disappearing_clears_ref_and_returns_to_pending() {
    let mut t = task_without_status();
    let sb = sandbox_with_fqdn(Some("refactor-auth-sbx.team-a.svc"));
    // Observed status reflects a running sandbox...
    t.status = derive_status(&t, Some(&sb), &Settings::default());
    assert!(t.status.as_ref().unwrap().sandbox_ref.is_some());
    // ...then the sandbox is gone: status must return to Pending with no ref.
    let d = derive_status(&t, None, &Settings::default()).unwrap();
    assert_eq!(d.phase, Phase::Pending);
    assert!(d.sandbox_ref.is_none());
    assert!(d.caliband_endpoint.is_none());
}

/// A condition another field manager (prospero, ADR 0005) owns on the CR.
fn agents_settled() -> Condition {
    Condition {
        type_: "AgentsSettled".into(),
        status: "True".into(),
        reason: Some("Succeeded".into()),
        message: None,
    }
}

/// A condition as prospero applies it: `AgentsSettled` with a
/// `Succeeded` / `Failed` / `AgentsActive` reason.
fn settled(status: &str, reason: &str, message: Option<&str>) -> Condition {
    Condition {
        type_: "AgentsSettled".into(),
        status: status.into(),
        reason: Some(reason.into()),
        message: message.map(str::to_string),
    }
}

/// A Running task whose agents prospero has reported on.
fn task_with_settled(c: Condition) -> (CalibanTask, Sandbox) {
    let mut t = task_without_status();
    let sb = sandbox_with_fqdn(Some("refactor-auth-sbx.team-a.svc"));
    t.status = derive_status(&t, Some(&sb), &Settings::default());
    t.status.as_mut().unwrap().conditions.push(c);
    (t, sb)
}

/// infrastructure alone cannot tell "agent running" from "agent
/// finished, pod still up", so a finished task reported `Running` forever.
/// prospero's `AgentsSettled` is what makes the phase terminal (ADR 0005).
#[test]
fn agents_settled_succeeded_makes_the_task_completed() {
    let (t, sb) = task_with_settled(settled("True", "Succeeded", None));
    let d = derive_status(&t, Some(&sb), &Settings::default())
        .expect("Running -> Completed is a change");
    assert_eq!(d.phase, Phase::Completed);
    let ready = &d.conditions[0];
    assert_eq!(ready.type_, "Ready");
    assert_eq!(ready.status, "False");
    assert_eq!(ready.reason.as_deref(), Some("Completed"));
}

#[test]
fn agents_settled_failed_makes_the_task_failed_with_the_message() {
    let (t, sb) = task_with_settled(settled("True", "Failed", Some("agent exited 1")));
    let d = derive_status(&t, Some(&sb), &Settings::default())
        .expect("Running -> Failed is a change");
    assert_eq!(d.phase, Phase::Failed);
    assert_eq!(d.conditions[0].status, "False");
    assert_eq!(d.conditions[0].reason.as_deref(), Some("AgentsFailed"));
    assert_eq!(d.conditions[0].message.as_deref(), Some("agent exited 1"));
}

/// prospero's `AgentsSettled` never sets `message` today, so a
/// failed task would otherwise show an empty reason in `kubectl describe`.
#[test]
fn a_failure_without_a_message_gets_a_fallback() {
    let (t, sb) = task_with_settled(settled("True", "Failed", None));
    let d = derive_status(&t, Some(&sb), &Settings::default()).unwrap();
    assert_eq!(d.phase, Phase::Failed);
    assert_eq!(
        d.conditions[0].message.as_deref(),
        Some("one or more agents failed or crashed")
    );
}

/// An idle interactive task is deliberately *not* settled: prospero reports
/// `AgentsActive`, and the task stays Running with its endpoint.
#[test]
fn agents_active_leaves_the_task_running() {
    let (t, sb) = task_with_settled(settled("False", "AgentsActive", None));
    assert!(
        derive_status(&t, Some(&sb), &Settings::default()).is_none(),
        "no phase change, so no status write"
    );
    assert_eq!(t.status.as_ref().unwrap().phase, Phase::Running);
}

/// Only the two reasons in prospero's contract are terminal; anything else
/// leaves the infrastructure-derived phase alone.
#[test]
fn a_settled_condition_with_an_unknown_reason_keeps_the_infrastructure_phase() {
    let (t, sb) = task_with_settled(settled("True", "Mysterious", None));
    assert!(derive_status(&t, Some(&sb), &Settings::default()).is_none());
    assert_eq!(t.status.as_ref().unwrap().phase, Phase::Running);
}

/// Terminal is stable: re-reconciling a Completed task writes nothing.
#[test]
fn a_completed_task_does_not_churn() {
    let (mut t, sb) = task_with_settled(settled("True", "Succeeded", None));
    let mut completed = derive_status(&t, Some(&sb), &Settings::default()).unwrap();
    // The observed status carries both managers' conditions.
    completed
        .conditions
        .push(settled("True", "Succeeded", None));
    t.status = Some(completed);
    assert!(derive_status(&t, Some(&sb), &Settings::default()).is_none());
}

/// status is written by server-side apply, so the body is a
/// partial object that must name its type.
#[test]
fn status_apply_body_names_the_object_type() {
    let body = status_apply_body(&CalibanTaskStatus::default());
    assert_eq!(body["apiVersion"], "caliban.caliban-ai.dev/v1alpha1");
    assert_eq!(body["kind"], "CalibanTask");
    assert!(body["status"].is_object());
}

/// Under server-side apply a manager releases (and the server removes) any
/// field it owned but omits — the inverse of merge patch, which needed an
/// explicit `null`/`[]`. A cleared endpoint, ref, and condition set must be
/// *absent* from the apply, not null.
#[test]
fn cleared_endpoint_ref_and_conditions_are_omitted_from_the_apply() {
    let mut t = task_without_status();
    let sb = sandbox_with_fqdn(Some("refactor-auth-sbx.team-a.svc"));
    t.status = derive_status(&t, Some(&sb), &Settings::default());
    let cleared = derive_status(&t, None, &Settings::default()).unwrap();
    let body = status_apply_body(&cleared);
    let st = &body["status"];
    assert_eq!(st["phase"], "Pending");
    assert!(st.get("calibandEndpoint").is_none(), "{st:?}");
    assert!(st.get("sandboxRef").is_none(), "{st:?}");
    assert!(st.get("conditions").is_none(), "{st:?}");
}

/// The operator force-applies status, so its body must never carry a
/// condition another manager owns — force would steal it.
#[test]
fn the_apply_never_carries_a_condition_the_operator_does_not_own() {
    let mut t = task_without_status();
    t.status = Some(CalibanTaskStatus {
        conditions: vec![agents_settled()],
        ..Default::default()
    });
    let sb = sandbox_with_fqdn(Some("refactor-auth-sbx.team-a.svc"));
    let d = derive_status(&t, Some(&sb), &Settings::default()).unwrap();
    let body = status_apply_body(&d);
    let types: Vec<&str> = body["status"]["conditions"]
        .as_array()
        .expect("operator conditions present")
        .iter()
        .map(|c| c["type"].as_str().unwrap())
        .collect();
    assert_eq!(types, vec!["Ready"]);
}

/// Once prospero has applied `AgentsSettled`, the observed conditions never
/// equal the operator's own set. Comparing them wholesale would re-apply
/// status on every reconcile. (Uses a non-terminal `AgentsActive` condition:
/// a `Succeeded`/`Failed` one legitimately changes the phase.)
#[test]
fn a_condition_owned_by_another_manager_does_not_cause_status_churn() {
    let mut t = task_without_status();
    let sb = sandbox_with_fqdn(Some("refactor-auth-sbx.team-a.svc"));
    t.status = derive_status(&t, Some(&sb), &Settings::default());
    t.status
        .as_mut()
        .unwrap()
        .conditions
        .push(settled("False", "AgentsActive", None));
    assert!(derive_status(&t, Some(&sb), &Settings::default()).is_none());
}

/// the admission-failure path re-applied an identical status on every
/// reconcile, for every permanently-failed task. Like `derive_status`, it
/// must skip a write that changes nothing.
#[test]
fn a_repeated_admission_failure_with_the_same_reason_is_not_reapplied() {
    let mut t = task_without_status();
    let reason = "Workspace not found: 'team-a-ws'";
    t.status = derive_failed_status(&t, "WorkspaceUnresolved", reason);
    assert_eq!(t.status.as_ref().unwrap().phase, Phase::Failed);
    assert!(derive_failed_status(&t, "WorkspaceUnresolved", reason).is_none());
}

#[test]
fn a_changed_admission_failure_reason_is_applied() {
    let mut t = task_without_status();
    t.status = derive_failed_status(
        &t,
        "WorkspaceUnresolved",
        "Workspace not found: 'team-a-ws'",
    );
    let next = "workspace 'team-a-ws' not ready: validation failed";
    let d = derive_failed_status(&t, "WorkspaceUnresolved", next)
        .expect("a new reason is a change");
    assert_eq!(d.phase, Phase::Failed);
    assert_eq!(d.conditions.len(), 1);
    assert_eq!(d.conditions[0].status, "False");
    assert_eq!(
        d.conditions[0].reason.as_deref(),
        Some("WorkspaceUnresolved")
    );
    assert_eq!(d.conditions[0].message.as_deref(), Some(next));
}

/// the Sandbox is watched (`owns`), so its status change triggers the
/// reconcile directly; the periodic requeue is only a safety net.
#[test]
fn periodic_resync_is_a_safety_net_not_the_trigger() {
    assert_eq!(Duration::from_secs(RESYNC), Duration::from_secs(300));
}

/// a task that fails for a reason other than its workspace carries its
/// own reason code, so the cause is legible in `kubectl describe`.
#[test]
fn a_failure_carries_its_own_reason_code() {
    let t = task_without_status();
    let d = derive_failed_status(&t, "InvalidName", "too long").unwrap();
    assert_eq!(d.phase, Phase::Failed);
    assert_eq!(d.conditions[0].reason.as_deref(), Some("InvalidName"));
    assert_eq!(d.conditions[0].message.as_deref(), Some("too long"));
}

/// a task with no UID cannot own its children. That is a named error,
/// not an owner reference with an empty UID the API server rejects.
#[test]
fn a_missing_uid_is_a_named_error() {
    let e = Error::MissingUid("refactor-auth".into());
    let msg = e.message();
    assert!(msg.contains("refactor-auth"), "{msg}");
    assert!(msg.contains("uid"), "{msg}");
}

#[test]
fn a_full_status_is_sent_under_the_names_the_api_server_knows() {
    let spec = WorkspaceSpec {
        display_name: "d".into(),
        sources: vec![Source {
            name: "n".into(),
            repo: "r".into(),
            git_ref: "main".into(),
            path: "/work/n".into(),
        }],
        providers: vec![Provider {
            name: "p".into(),
            kind: "openai".into(),
            base_url: Some("u".into()),
            model: Some("m".into()),
            credentials_ref: Some(CredentialsRef {
                secret_name: "s".into(),
                key: "k".into(),
            }),
        }],
        default_provider: None,
        env: vec![EnvEntry {
            name: "A".into(),
            value: "1".into(),
        }],
        isolation: Some(caliban_operator::crd::IsolationSpec {
            runtime_class: Some("gvisor".into()),
            worktrees: None,
        }),
        egress: Some(EgressSpec {
            allow: vec![
                EgressRule {
                    cidr: "10.0.0.0/8".into(),
                    ports: vec![443],
                },
                EgressRule {
                    cidr: "::/0".into(),
                    ports: vec![],
                },
            ],
        }),
        agent_policy: Some(AgentPolicy {
            allow_unattended: true,
        }),
    };
    let status = CalibanTaskStatus {
        phase: Phase::Running,
        caliband_endpoint: Some("h:1".into()),
        sandbox_ref: Some(caliban_operator::crd::NamedRef { name: "x-sbx".into() }),
        checkpoint_ref: Some("c".into()),
        conditions: vec![Condition {
            type_: "Ready".into(),
            status: "True".into(),
            reason: Some("Running".into()),
            message: None,
        }],
        resolved_workspace: Some(resolve_workspace(&spec, None).unwrap()),
        permission_posture: Some(PermissionPosture::Unattended),
    };
    let expected: serde_json::Value = serde_json::from_str(
        r#"{
            "apiVersion": "caliban.caliban-ai.dev/v1alpha1",
            "kind": "CalibanTask",
            "status": {
                "phase": "Running",
                "calibandEndpoint": "h:1",
                "sandboxRef": {"name": "x-sbx"},
                "checkpointRef": "c",
                "conditions": [{"type": "Ready", "status": "True", "reason": "Running"}],
                "resolvedWorkspace": {
                    "sources": [{"name": "n", "repo": "r", "ref": "main", "path": "/work/n"}],
                    "provider": {
                        "name": "p",
                        "kind": "openai",
                        "baseUrl": "u",
                        "model": "m",
                        "credentialsRef": {"secretName": "s", "key": "k"}
                    },
                    "env": [{"name": "A", "value": "1"}],
                    "isolation": {"runtimeClass": "gvisor"},
                    "egress": {"allow": [{"cidr": "10.0.0.0/8", "ports": [443]}, {"cidr": "::/0"}]},
                    "agentPolicy": {"allowUnattended": true}
                },
                "permissionPosture": "unattended"
            }
        }"#,
    )
    .unwrap();
    assert_eq!(status_apply_body(&status), expected);
}

#[test]
fn a_failed_workspace_without_a_message_still_has_a_reason() {
    let ws = workspace(WorkspacePhase::Failed, None);
    match admit_task(Some(&ws), None, "team-a-ws") {
        Admission::Fail(msg) => {
            assert_eq!(msg, "workspace 'team-a-ws' not ready: validation failed")
        }
        _ => panic!("expected Fail"),
    }
}

#[test]
fn a_workspace_without_a_status_is_waited_for() {
    let mut ws = workspace(WorkspacePhase::Ready, None);
    ws.status = None;
    assert!(matches!(
        admit_task(Some(&ws), None, "team-a-ws"),
        Admission::Requeue
    ));
}

#[test]
fn the_first_ready_condition_of_the_sandbox_counts() {
    let t = task_without_status();
    let mut sb = sandbox_with_fqdn(Some("f"));
    let conditions = &mut sb.status.as_mut().unwrap().conditions;
    let mut unready = conditions[0].clone();
    unready.status = "Unknown".into();
    unready.message = None;
    conditions.insert(0, unready);
    let d = derive_status(&t, Some(&sb), &Settings::default()).unwrap();
    assert_eq!(d.phase, Phase::Provisioning);
    assert_eq!(d.conditions[0].reason.as_deref(), Some("SandboxNotReady"));
    assert_eq!(d.conditions[0].message, None);
}

#[test]
fn a_ready_sandbox_without_a_name_is_provisioning_without_conditions() {
    let t = task_without_status();
    let sb = sandbox_status(None, Some(("True", "DependenciesReady", "Pod is Ready")));
    let d = derive_status(&t, Some(&sb), &Settings::default()).unwrap();
    assert_eq!(d.phase, Phase::Provisioning);
    assert!(d.conditions.is_empty());
}

#[test]
fn settled_agents_decide_without_a_sandbox_too() {
    let (t, _) = task_with_settled(settled("True", "Failed", None));
    let d = derive_status(&t, None, &Settings::default()).unwrap();
    assert_eq!(d.phase, Phase::Failed);
    assert!(d.sandbox_ref.is_none());
    assert!(d.caliband_endpoint.is_none());
}

#[test]
fn what_is_not_derived_is_kept() {
    let mut t = task_without_status();
    t.status = Some(CalibanTaskStatus {
        checkpoint_ref: Some("ckpt".into()),
        permission_posture: Some(PermissionPosture::Supervised),
        ..Default::default()
    });
    let sb = sandbox_with_fqdn(None);
    let d = derive_status(&t, Some(&sb), &Settings::default()).unwrap();
    assert_eq!(d.checkpoint_ref.as_deref(), Some("ckpt"));
    assert_eq!(d.permission_posture, Some(PermissionPosture::Supervised));
}

#[test]
fn the_endpoint_has_the_configured_port() {
    let t = task_without_status();
    let sb = sandbox_with_fqdn(Some("f"));
    let s = Settings {
        caliband_port: 443,
        ..Settings::default()
    };
    let d = derive_status(&t, Some(&sb), &s).unwrap();
    assert_eq!(d.caliband_endpoint.as_deref(), Some("f:443"));
}

#[test]
fn a_status_is_compared_by_what_is_derived() {
    let mut t = task_without_status();
    let sb = sandbox_with_fqdn(Some("f"));
    let s = Settings::default();
    let derived = derive_status(&t, Some(&sb), &s).unwrap();
    let unchanged = |t: &CalibanTask| derive_status(t, Some(&sb), &s).is_none();

    // What is not derived makes no difference.
    let mut status = derived.clone();
    status.checkpoint_ref = Some("ckpt".into());
    status.permission_posture = Some(PermissionPosture::Unattended);
    status.resolved_workspace =
        Some(resolve_workspace(&workspace(WorkspacePhase::Ready, None).spec, None).unwrap());
    status.conditions.insert(0, settled("False", "AgentsActive", None));
    t.status = Some(status);
    assert!(unchanged(&t));

    // Each part of what is derived does.
    let mut status = derived.clone();
    status.phase = Phase::Provisioning;
    t.status = Some(status);
    assert!(!unchanged(&t));
    let mut status = derived.clone();
    status.caliband_endpoint = Some("g:1".into());
    t.status = Some(status);
    assert!(!unchanged(&t));
    let mut status = derived.clone();
    status.sandbox_ref = None;
    t.status = Some(status);
    assert!(!unchanged(&t));
    let mut status = derived.clone();
    status.conditions[0].reason = None;
    t.status = Some(status);
    assert!(!unchanged(&t));
    t.status = Some(derived);
    assert!(unchanged(&t));
}
