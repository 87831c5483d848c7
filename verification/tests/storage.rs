use caliban_operator::crd::StateSpec;
use caliban_operator::objects::{EnvVar, Secret};
use caliban_operator::storage::{state_problem, storage_env, token_secret_problem};
use caliban_operator::workspace::CredentialsRef;

fn state(endpoint: Option<&str>, mode: Option<&str>, token: Option<(&str, &str)>) -> StateSpec {
    StateSpec {
        gonzalo_endpoint: endpoint.map(String::from),
        mode: mode.map(String::from),
        token_ref: token.map(|(s, k)| CredentialsRef {
            secret_name: s.into(),
            key: k.into(),
        }),
    }
}

fn value<'a>(env: &'a [EnvVar], name: &str) -> Option<&'a str> {
    env.iter()
        .find(|e| e.name == name)
        .and_then(|e| e.value.as_deref())
}

#[test]
fn no_state_projects_nothing() {
    assert!(storage_env(None).is_empty());
}

#[test]
fn an_endpoint_selects_remote_storage_at_that_url() {
    let env = storage_env(Some(&state(
        Some("http://gonzalod.storage.svc:8080"),
        None,
        None,
    )));
    assert_eq!(value(&env, "CALIBAN_STORAGE_SUBSTRATE"), Some("remote"));
    assert_eq!(
        value(&env, "CALIBAN_STORAGE_REMOTE_URL"),
        Some("http://gonzalod.storage.svc:8080")
    );
    assert!(env
        .iter()
        .all(|e| e.name != "CALIBAN_STORAGE_REMOTE_TOKEN_ENV" && e.name != "GONZALO_TOKEN"));
}

/// caliban never reads `GONZALO_ENDPOINT`.
#[test]
fn the_inert_gonzalo_endpoint_variable_is_gone() {
    let env = storage_env(Some(&state(
        Some("http://g:8080"),
        Some("remote"),
        Some(("gz", "token")),
    )));
    assert!(env.iter().all(|e| e.name != "GONZALO_ENDPOINT"));
}

/// The CRD says `local`; caliban's vocabulary for the same thing is `fs`.
#[test]
fn local_mode_selects_the_fs_substrate() {
    let env = storage_env(Some(&state(None, Some("local"), None)));
    assert_eq!(value(&env, "CALIBAN_STORAGE_SUBSTRATE"), Some("fs"));
    assert!(env.iter().all(|e| e.name != "CALIBAN_STORAGE_REMOTE_URL"));
}

/// The token itself never sits in the pod spec: only its variable's name is set, and the variable is
/// filled from the Secret.
#[test]
fn a_token_ref_names_the_token_variable_and_projects_it_from_the_secret() {
    let env = storage_env(Some(&state(
        Some("http://g:8080"),
        Some("remote"),
        Some(("gonzalo-agent", "token")),
    )));
    assert_eq!(
        value(&env, "CALIBAN_STORAGE_REMOTE_TOKEN_ENV"),
        Some("GONZALO_TOKEN")
    );
    let token = env
        .iter()
        .find(|e| e.name == "GONZALO_TOKEN")
        .expect("token variable");
    assert!(token.value.is_none(), "the token must never be inlined");
    let selector = token
        .value_from
        .as_ref()
        .and_then(|v| v.secret_key_ref.as_ref())
        .expect("secretKeyRef");
    assert_eq!(selector.name, "gonzalo-agent");
    assert_eq!(selector.key, "token");
    assert_eq!(selector.optional, Some(false));
}

#[test]
fn storage_variables_come_in_order() {
    let env = storage_env(Some(&state(Some("u"), None, Some(("s", "k")))));
    let names: Vec<&str> = env.iter().map(|e| e.name.as_str()).collect();
    assert_eq!(
        names,
        vec![
            "CALIBAN_STORAGE_SUBSTRATE",
            "CALIBAN_STORAGE_REMOTE_URL",
            "CALIBAN_STORAGE_REMOTE_TOKEN_ENV",
            "GONZALO_TOKEN",
        ]
    );
}

#[test]
fn a_state_that_selects_nothing_projects_nothing() {
    assert!(storage_env(Some(&state(None, None, None))).is_empty());
    assert!(storage_env(Some(&state(Some("u"), Some("s3"), None))).is_empty());
    // A token without a remote store is a problem, and is not projected.
    let env = storage_env(Some(&state(None, Some("local"), Some(("s", "k")))));
    assert_eq!(env.len(), 1);
}

#[test]
fn a_well_formed_state_has_no_problem() {
    assert!(state_problem(&state(Some("http://g:8080"), None, Some(("s", "k")))).is_none());
    assert!(state_problem(&state(Some("http://g:8080"), Some("remote"), None)).is_none());
    assert!(state_problem(&state(None, Some("local"), None)).is_none());
    assert!(state_problem(&state(None, None, None)).is_none());
}

#[test]
fn an_unknown_mode_is_a_problem_naming_it() {
    let p = state_problem(&state(Some("http://g:8080"), Some("s3"), None)).unwrap();
    assert!(p.contains("s3"), "{p}");
}

/// caliban refuses to start with remote storage and no URL.
#[test]
fn remote_mode_without_an_endpoint_is_a_problem() {
    assert!(state_problem(&state(None, Some("remote"), None)).is_some());
}

/// An endpoint that `mode: local` would silently ignore.
#[test]
fn an_endpoint_with_local_mode_is_a_problem() {
    assert!(state_problem(&state(Some("http://g:8080"), Some("local"), None)).is_some());
}

/// A token with no remote store to authenticate to would do nothing.
#[test]
fn a_token_ref_without_remote_storage_is_a_problem() {
    assert!(state_problem(&state(None, Some("local"), Some(("s", "k")))).is_some());
    assert!(state_problem(&state(None, None, Some(("s", "k")))).is_some());
}

#[test]
fn each_state_problem_says_what_it_is() {
    let problem = |e, m, t| state_problem(&state(e, m, t)).unwrap();
    assert_eq!(
        problem(None, Some("Remote"), None),
        "state.mode 'Remote' is not one of: remote, local"
    );
    assert_eq!(
        problem(None, Some("remote"), Some(("s", "k"))),
        "state.mode remote requires state.gonzaloEndpoint"
    );
    assert_eq!(
        problem(Some("u"), Some("local"), Some(("s", "k"))),
        "state.gonzaloEndpoint is set, but state.mode local never uses it"
    );
    assert_eq!(
        problem(None, None, Some(("s", "k"))),
        "state.tokenRef requires remote storage (set state.gonzaloEndpoint)"
    );
}

#[test]
fn a_missing_token_secret_or_key_is_a_problem() {
    let r = CredentialsRef {
        secret_name: "gonzalo-agent".into(),
        key: "token".into(),
    };
    let p = token_secret_problem(None, &r).expect("missing secret");
    assert!(p.contains("gonzalo-agent"), "{p}");

    let wrong_key = Secret {
        data: Some(vec!["other".to_string()]),
        ..Default::default()
    };
    let p = token_secret_problem(Some(&wrong_key), &r).expect("missing key");
    assert!(p.contains("token"), "{p}");

    let in_data = Secret {
        data: Some(vec!["token".to_string()]),
        ..Default::default()
    };
    assert!(token_secret_problem(Some(&in_data), &r).is_none());

    let in_string_data = Secret {
        string_data: Some(vec!["token".to_string()]),
        ..Default::default()
    };
    assert!(token_secret_problem(Some(&in_string_data), &r).is_none());
}

#[test]
fn each_token_problem_says_what_it_is() {
    let r = CredentialsRef {
        secret_name: "s".into(),
        key: "k".into(),
    };
    assert_eq!(
        token_secret_problem(None, &r).unwrap(),
        "state.tokenRef: secret 's' not found"
    );
    assert_eq!(
        token_secret_problem(Some(&Secret::default()), &r).unwrap(),
        "state.tokenRef: secret 's' has no key 'k'"
    );
}
