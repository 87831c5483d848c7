use std::time::Duration;

use caliban_operator::objects::Secret;
use caliban_operator::workspace::{
    validate_workspace, CredentialsRef, Provider, Source, Workspace, WorkspacePhase, WorkspaceSpec,
};
use caliban_operator::workspace_controller::{
    credential_secret_names, derive_workspace_status, reconcile_workspace, requeue_after,
    status_patch, FetchedSecret,
};

fn workspace(gen: i64) -> Workspace {
    let mut ws = Workspace::new(
        "team-a-ws",
        WorkspaceSpec {
            display_name: "Team A".into(),
            sources: vec![Source {
                name: "caliban".into(),
                repo: "git@x:caliban".into(),
                git_ref: "main".into(),
                path: "/work/caliban".into(),
            }],
            providers: vec![Provider {
                name: "workers".into(),
                kind: "openai".into(),
                base_url: None,
                model: None,
                credentials_ref: None,
            }],
            default_provider: None,
            env: vec![],
            isolation: None,
            egress: None,
            agent_policy: None,
        },
    );
    ws.metadata.namespace = Some("team-a".into());
    ws.metadata.generation = Some(gen);
    ws
}

#[test]
fn ready_status_is_derived_and_records_generation() {
    let ws = workspace(3);
    let v = validate_workspace(&ws.spec, "/work", |_, _| true);
    let s = derive_workspace_status(&ws, v).unwrap();
    assert_eq!(s.phase, WorkspacePhase::Ready);
    assert_eq!(s.observed_generation, Some(3));
    assert!(s.message.is_none());
}

#[test]
fn workspace_controller_unchanged_status_is_noop() {
    let mut ws = workspace(3);
    let v = validate_workspace(&ws.spec, "/work", |_, _| true);
    ws.status = derive_workspace_status(&ws, v);
    let v2 = validate_workspace(&ws.spec, "/work", |_, _| true);
    assert!(derive_workspace_status(&ws, v2).is_none());
}

/// the controller does not watch Secrets — that would need
/// cluster-wide `list`/`watch` on every Secret and cache their data in the
/// operator. Recovery from a missing credential therefore rides the
/// requeue, so a workspace that isn't Ready is re-checked quickly: creating
/// the Secret unblocks it within seconds, not five minutes. A Ready
/// workspace keeps the slow safety-net interval.
#[test]
fn a_workspace_that_is_not_ready_requeues_quickly() {
    assert_eq!(
        Duration::from_secs(requeue_after(WorkspacePhase::Failed)),
        Duration::from_secs(15)
    );
    assert_eq!(
        Duration::from_secs(requeue_after(WorkspacePhase::Pending)),
        Duration::from_secs(15)
    );
    assert_eq!(
        Duration::from_secs(requeue_after(WorkspacePhase::Ready)),
        Duration::from_secs(300)
    );
}

/// providers commonly share one credential Secret under different
/// keys. Reconcile must fetch each distinct Secret once, not once per
/// provider.
#[test]
fn credential_secret_names_are_deduplicated() {
    let with_cred = |name: &str, secret: &str, key: &str| Provider {
        name: name.into(),
        kind: "anthropic".into(),
        base_url: None,
        model: None,
        credentials_ref: Some(CredentialsRef {
            secret_name: secret.into(),
            key: key.into(),
        }),
    };
    let mut ws = workspace(1);
    ws.spec.providers = vec![
        with_cred("planner", "llm-keys", "anthropic"),
        with_cred("workers", "llm-keys", "openai"),
        with_cred("review", "other", "k"),
        Provider {
            name: "local".into(),
            kind: "openai".into(),
            base_url: None,
            model: None,
            credentials_ref: None,
        },
    ];
    let names = credential_secret_names(&ws.spec);
    assert_eq!(names, vec!["llm-keys", "other"]);
}

fn keyed(secret: &str, key: &str) -> Workspace {
    let mut ws = workspace(7);
    ws.spec.providers[0].credentials_ref = Some(CredentialsRef {
        secret_name: secret.into(),
        key: key.into(),
    });
    ws
}

fn fetched(name: &str, data: &[&str], string_data: &[&str]) -> FetchedSecret {
    FetchedSecret {
        name: name.into(),
        secret: Secret {
            data: Some(data.iter().map(|k| k.to_string()).collect()),
            string_data: Some(string_data.iter().map(|k| k.to_string()).collect()),
        },
    }
}

#[test]
fn a_workspace_is_ready_once_its_secret_has_the_key() {
    let ws = keyed("llm", "k");
    for secrets in [
        vec![],
        vec![fetched("other", &["k"], &[])],
        vec![fetched("llm", &["j"], &["i"])],
    ] {
        let out = reconcile_workspace(&ws, "/work", &secrets);
        assert_eq!(out.phase, WorkspacePhase::Failed);
        assert_eq!(out.requeue, 15);
        let status = out.status.unwrap();
        assert_eq!(
            status.message.as_deref(),
            Some("provider 'workers': secret 'llm' key 'k' not found")
        );
        assert_eq!(status.observed_generation, Some(7));
    }
    for secret in [fetched("llm", &["k"], &[]), fetched("llm", &[], &["j", "k"])] {
        let out = reconcile_workspace(&ws, "/work", &vec![secret]);
        assert_eq!(out.phase, WorkspacePhase::Ready);
        assert_eq!(out.requeue, 300);
        assert!(out.status.unwrap().message.is_none());
    }
}

#[test]
fn a_written_workspace_status_is_not_written_again() {
    let mut ws = keyed("llm", "k");
    ws.status = reconcile_workspace(&ws, "/work", &vec![]).status;
    assert!(reconcile_workspace(&ws, "/work", &vec![]).status.is_none());
    // A new generation is a change.
    ws.metadata.generation = Some(8);
    let status = reconcile_workspace(&ws, "/work", &vec![]).status.unwrap();
    assert_eq!(status.observed_generation, Some(8));
}

#[test]
fn the_status_patch_carries_the_status_alone() {
    let ws = keyed("llm", "k");
    let status = reconcile_workspace(&ws, "/work", &vec![]).status.unwrap();
    let patch = status_patch(&status);
    let st = &patch["status"];
    assert_eq!(st["phase"], "Failed");
    assert!(st.get("conditions").is_none());
    assert!(st["message"].is_string());
    assert_eq!(st["observedGeneration"], 7);
    assert!(patch.get("kind").is_none());
}

#[test]
fn secret_names_are_in_order() {
    let mut ws = workspace(1);
    ws.spec.providers.clear();
    assert!(credential_secret_names(&ws.spec).is_empty());
    for name in ["b", "a", "", "ab", "é", "a", "b"] {
        ws.spec.providers.push(Provider {
            name: name.into(),
            kind: "openai".into(),
            base_url: None,
            model: None,
            credentials_ref: Some(CredentialsRef {
                secret_name: name.into(),
                key: "k".into(),
            }),
        });
    }
    assert_eq!(credential_secret_names(&ws.spec), vec!["", "a", "ab", "b", "é"]);
}
