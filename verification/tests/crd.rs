use caliban_operator::crd::{CalibanTask, PermissionPosture, Phase, TaskSpec};
use caliban_operator::workspace::{AgentPolicy, Workspace, WorkspacePhase};

fn task_spec(permission_posture: Option<PermissionPosture>) -> TaskSpec {
    TaskSpec {
        prompt: "hi".into(),
        agent_type: None,
        interactive: None,
        permission_posture,
    }
}

#[test]
fn crd_crd_has_correct_group_version_kind() {
    let crd = CalibanTask::definition();
    assert_eq!(crd.group, "caliban.caliban-ai.dev");
    assert_eq!(crd.kind, "CalibanTask");
    assert_eq!(crd.version, "v1alpha1");
    assert_eq!(crd.scope, "Namespaced");
    assert!(crd.status_subresource);
}

#[test]
fn workspace_crd_has_correct_group_version_kind() {
    let crd = Workspace::definition();
    assert_eq!(crd.group, "caliban.caliban-ai.dev");
    assert_eq!(crd.kind, "Workspace");
    assert_eq!(crd.version, "v1alpha1");
    assert_eq!(crd.scope, "Namespaced");
    assert!(crd.status_subresource);
}

#[test]
fn an_unset_posture_is_supervised() {
    let task = task_spec(None);
    assert!(task.permission_posture.is_none());
    assert_eq!(task.posture(), PermissionPosture::Supervised);
}

#[test]
fn a_set_posture_is_the_tasks() {
    assert_eq!(
        task_spec(Some(PermissionPosture::Unattended)).posture(),
        PermissionPosture::Unattended
    );
    assert_eq!(PermissionPosture::Unattended.name(), "unattended");
    assert_eq!(PermissionPosture::Supervised.name(), "supervised");
}

#[test]
fn nothing_is_permitted_or_reached_by_default() {
    assert_eq!(PermissionPosture::default(), PermissionPosture::Supervised);
    assert_eq!(Phase::default(), Phase::Pending);
    assert_eq!(WorkspacePhase::default(), WorkspacePhase::Pending);
    assert_eq!(AgentPolicy::default(), AgentPolicy { allow_unattended: false });
}
