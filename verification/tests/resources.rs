use caliban_operator::config::Settings;
use caliban_operator::crd::{
    CalibanTask, CalibanTaskSpec, IsolationSpec, ModelSpec, StateSpec, TaskSpec, WorkspaceRef,
};
use caliban_operator::objects::Container;
use caliban_operator::resources::{
    build_network_policy, build_sandbox, build_service_account, plan, provider_env,
    restricted_network_policy,
};
use caliban_operator::string_map::StringMap;
use caliban_operator::workspace::{
    CredentialsRef, EgressRule, EgressSpec, EnvEntry, ResolvedProvider, ResolvedWorkspace, Source,
};

fn task() -> CalibanTask {
    let mut t = CalibanTask::new(
        "refactor-auth",
        CalibanTaskSpec {
            workspace_ref: WorkspaceRef {
                name: "team-a-ws".into(),
            },
            provider_ref: None,
            task: TaskSpec {
                prompt: "hi".into(),
                agent_type: None,
                interactive: None,
                permission_posture: None,
            },
            model: None,
            state: None,
            isolation: None,
            resources: None,
            lifecycle: None,
            tools: None,
        },
    );
    t.metadata.namespace = Some("team-a".into());
    t.metadata.uid = Some("uid-123".into());
    t
}

fn resolved() -> ResolvedWorkspace {
    ResolvedWorkspace {
        sources: vec![Source {
            name: "caliban".into(),
            repo: "git@x:caliban".into(),
            git_ref: "main".into(),
            path: "/work/caliban".into(),
        }],
        provider: ResolvedProvider {
            name: "workers".into(),
            kind: "openai".into(),
            base_url: None,
            model: None,
            credentials_ref: None,
        },
        env: vec![],
        isolation: None,
        egress: None,
        agent_policy: None,
    }
}

#[test]
fn service_account_is_token_less_and_owned() {
    let sa = build_service_account(&task());
    assert_eq!(sa.metadata.name.as_deref(), Some("refactor-auth-sa"));
    assert_eq!(sa.metadata.namespace.as_deref(), Some("team-a"));
    assert_eq!(sa.automount_service_account_token, Some(false));
    let owners = sa.metadata.owner_references.unwrap();
    assert_eq!(owners[0].controller, Some(true));
    assert_eq!(owners[0].kind, "CalibanTask");
}

#[test]
fn network_policy_is_default_deny_with_dns_and_caliband_ingress() {
    let np = build_network_policy(&task(), &Settings::default());
    let spec = np.spec.unwrap();
    assert_eq!(
        spec.policy_types.as_ref().unwrap(),
        &vec!["Ingress".to_string(), "Egress".to_string()]
    );
    // Ingress allows the caliband port.
    let ingress = spec.ingress.unwrap();
    let iports = ingress[0].ports.clone().unwrap();
    assert!(iports
        .iter()
        .any(|p| p.port == Some(8443)));
    // Ingress is scoped to the task's own namespace (same-namespace peer).
    let peers = ingress[0].from.clone().unwrap();
    assert_eq!(peers.len(), 1);
    assert!(peers[0].pod_selector.is_some());
    assert!(peers[0].namespace_selector.is_none());
    // Egress: DNS rule + an allow-all rule (empty `to`).
    let egress = spec.egress.unwrap();
    assert_eq!(egress.len(), 2);
    assert!(egress[1].to.is_none()); // allow-all destinations
                                     // Selects the pod by our managed labels.
    assert!(spec
        .pod_selector
        .unwrap()
        .match_labels
        .unwrap()
        .contains_key("caliban.caliban-ai.dev/task"));
}

#[test]
fn network_policy_opens_the_per_agent_stream_port_range() {
    // prosperod's per-agent stream dial targets a port drawn from the
    // agent-port-base (7100) upward, which the old policy (8443-only) blocked.
    let np = build_network_policy(&task(), &Settings::default());
    let ingress = np.spec.unwrap().ingress.unwrap();
    let ports = ingress[0].ports.clone().unwrap();
    // The caliband control port is still allowed as a single port.
    assert!(ports
        .iter()
        .any(|p| p.port == Some(8443) && p.end_port.is_none()));
    // The per-agent stream window 7100..=7999 is allowed as a range.
    assert!(ports
        .iter()
        .any(|p| p.port == Some(7100) && p.end_port == Some(7999)));
}

#[test]
fn sandbox_advertises_routable_host_and_pins_agent_port_base() {
    let s = Settings::default();
    let sb = build_sandbox(&task(), &resolved(), &s);
    let pod = sb.spec.pod_template.spec.unwrap();
    let args = pod.containers[0].args.as_ref().unwrap();
    // caliband advertises the pod's routable DNS for per-agent endpoints,
    // not its 0.0.0.0 bind address.
    let adv_idx = args
        .iter()
        .position(|a| a == "--advertise-host")
        .expect("--advertise-host flag present");
    assert_eq!(
        args[adv_idx + 1],
        "refactor-auth-sbx.team-a.svc.cluster.local"
    );
    // The operator pins the port base so it stays locked to the NetworkPolicy window.
    let base_idx = args
        .iter()
        .position(|a| a == "--agent-port-base")
        .expect("--agent-port-base flag present");
    assert_eq!(args[base_idx + 1], "7100");
}

/// with no probe, Kubernetes has no independent signal that caliband has
/// bound its control port, so the pod — and in turn the Sandbox's `Ready`
/// condition — reports ready while a crash-looping caliband cannot answer.
#[test]
fn caliband_container_has_tcp_readiness_and_startup_probes_on_the_control_port() {
    let s = Settings::default();
    let sb = build_sandbox(&task(), &resolved(), &s);
    let pod = sb.spec.pod_template.spec.unwrap();
    let c = &pod.containers[0];
    for (kind, probe) in [
        ("readiness", c.readiness_probe.as_ref()),
        ("startup", c.startup_probe.as_ref()),
    ] {
        let probe = probe.unwrap_or_else(|| panic!("caliband has no {kind} probe"));
        let tcp = probe
            .tcp_socket
            .as_ref()
            .unwrap_or_else(|| panic!("{kind} probe is not a tcpSocket probe"));
        assert_eq!(tcp.port, s.caliband_port, "{kind}");
    }
    // Liveness is deliberately absent: restarting caliband would kill every
    // agent it supervises, which a readiness gate alone does not.
    assert!(c.liveness_probe.is_none());
}

#[test]
fn sandbox_has_caliband_container_pvc_and_service() {
    let s = Settings::default();
    let sb = build_sandbox(&task(), &resolved(), &s);
    assert_eq!(sb.metadata.name.as_deref(), Some("refactor-auth-sbx"));
    assert_eq!(sb.metadata.namespace.as_deref(), Some("team-a"));
    assert_eq!(sb.spec.service, Some(true));
    let pod = sb.spec.pod_template.spec.unwrap();
    assert_eq!(
        pod.service_account_name.as_deref(),
        Some("refactor-auth-sa")
    );
    assert_eq!(pod.automount_service_account_token, Some(false));
    let c = &pod.containers[0];
    assert_eq!(
        c.image.as_deref(),
        Some("ghcr.io/caliban-ai/caliban:latest")
    );
    assert_eq!(c.ports.as_ref().unwrap()[0].container_port, 8443);
    // Args run caliband as a daemon: --workspace-root <root> --listen 0.0.0.0:<port>.
    let args = c.args.as_ref().unwrap();
    let root_idx = args
        .iter()
        .position(|a| a == "--workspace-root")
        .expect("--workspace-root flag present");
    assert_eq!(args[root_idx + 1], s.workspace_root);
    let listen_idx = args
        .iter()
        .position(|a| a == "--listen")
        .expect("--listen flag present");
    assert_eq!(args[listen_idx + 1], "0.0.0.0:8443");
    // Variables that caliband does not read must not appear.
    let env = c.env.as_ref().unwrap();
    assert!(!env.iter().any(|e| e.name == "CALIBAND_LISTEN"));
    assert!(!env.iter().any(|e| e.name == "CALIBAN_WORKSPACE_ROOT"));
    assert!(!env.iter().any(|e| e.name == "CALIBAN_WORKSPACE_SOURCES"));
    // No model configured in the default fixture → no router-config env.
    assert!(!env.iter().any(|e| e.name == "CALIBAN_ROUTER_CONFIG"));
    // Workspace PVC present.
    let pvcs = sb.spec.volume_claim_templates.unwrap();
    assert_eq!(pvcs[0].metadata.name.as_deref(), Some("workspace"));
    // Pod carries the managed labels (so the NetworkPolicy selects it).
    assert!(sb
        .spec
        .pod_template
        .metadata
        .unwrap()
        .labels
        .unwrap()
        .contains_key("caliban.caliban-ai.dev/task"));
}

#[test]
fn sandbox_has_git_clone_init_container_for_workspace_sources() {
    let s = Settings::default();
    let sb = build_sandbox(&task(), &resolved(), &s);
    let pod = sb.spec.pod_template.spec.unwrap();
    let inits = pod.init_containers.expect("init containers present");
    assert_eq!(inits.len(), 1);
    let init = &inits[0];
    assert_eq!(init.name, "clone-workspace");
    assert_eq!(
        init.image.as_deref(),
        Some(Settings::default().git_image.as_str())
    );
    let mounts = init.volume_mounts.as_ref().unwrap();
    assert_eq!(mounts.len(), 1);
    assert_eq!(mounts[0].name, "workspace");
    assert_eq!(mounts[0].mount_path, s.workspace_root);
    let command = init.command.as_ref().unwrap();
    assert_eq!(command[0], "/bin/sh");
    assert_eq!(command[1], "-c");
    let script = &command[2];
    assert!(
        script.contains("git clone --depth 1 --branch 'main' 'git@x:caliban' '/work/caliban'")
    );
    assert!(script.contains("[ ! -d '/work/caliban/.git' ]"));
}

#[test]
fn clone_script_shell_escapes_source_values() {
    let t = task();
    let mut rw = resolved();
    rw.sources[0].repo = "https://x/a'b".into();
    let sb = build_sandbox(&t, &rw, &Settings::default());
    let pod = sb.spec.pod_template.spec.unwrap();
    let init = &pod.init_containers.unwrap()[0];
    let script = &init.command.as_ref().unwrap()[2];
    assert!(script.contains("'https://x/a'\\''b'"));
    assert!(!script.contains("'https://x/a'b'"));
}

#[test]
fn sandbox_omits_init_containers_when_no_workspace_sources() {
    let t = task();
    let mut rw = resolved();
    rw.sources = vec![];
    let sb = build_sandbox(&t, &rw, &Settings::default());
    let pod = sb.spec.pod_template.spec.unwrap();
    assert!(pod.init_containers.is_none());
}

/// Both sandbox containers: caliband, then the git-clone init container.
fn sandbox_containers(s: &Settings) -> Vec<Container> {
    let sb = build_sandbox(&task(), &resolved(), s);
    let pod = sb.spec.pod_template.spec.unwrap();
    let mut cs = pod.containers;
    cs.extend(pod.init_containers.expect("init container present"));
    assert_eq!(cs.len(), 2);
    cs
}

/// with no `resources` block every sandbox pod is BestEffort QoS —
/// first evicted under node pressure and rejected outright by namespaces
/// that enforce a ResourceQuota.
#[test]
fn default_settings_give_both_containers_requests_but_no_limits() {
    for c in sandbox_containers(&Settings::default()) {
        let r = c
            .resources
            .as_ref()
            .unwrap_or_else(|| panic!("{} has no resources block", c.name));
        let req = r.requests.as_ref().expect("requests");
        assert_eq!(req.get("cpu").map(String::as_str), Some("250m"), "{}", c.name);
        assert_eq!(
            req.get("memory").map(String::as_str),
            Some("512Mi"),
            "{}",
            c.name
        );
        assert!(
            r.limits.is_none(),
            "{}: defaults must not set limits (Burstable, not a surprise OOM)",
            c.name
        );
    }
}

#[test]
fn configured_limits_are_applied_to_both_containers() {
    let s = Settings {
        caliband_cpu_limit: Some("2".into()),
        caliband_memory_limit: Some("4Gi".into()),
        ..Settings::default()
    };
    for c in sandbox_containers(&s) {
        let limits = c
            .resources
            .as_ref()
            .and_then(|r| r.limits.as_ref())
            .unwrap_or_else(|| panic!("{} has no limits", c.name));
        assert_eq!(limits.get("cpu").map(String::as_str), Some("2"), "{}", c.name);
        assert_eq!(
            limits.get("memory").map(String::as_str),
            Some("4Gi"),
            "{}",
            c.name
        );
    }
}

#[test]
fn with_no_requests_or_limits_the_resources_block_is_omitted() {
    let s = Settings {
        caliband_cpu_request: None,
        caliband_memory_request: None,
        ..Settings::default()
    };
    for c in sandbox_containers(&s) {
        assert!(
            c.resources.is_none(),
            "{}: expected no resources block",
            c.name
        );
    }
}

#[test]
fn sandbox_runtime_class_from_isolation() {
    let mut t = task();
    t.spec.isolation = Some(IsolationSpec {
        runtime_class: Some("gvisor".into()),
        worktrees: None,
    });
    let sb = build_sandbox(&t, &resolved(), &Settings::default());
    assert_eq!(
        sb.spec
            .pod_template
            .spec
            .unwrap()
            .runtime_class_name
            .as_deref(),
        Some("gvisor")
    );
}

#[test]
fn sandbox_runtime_class_falls_back_to_workspace_isolation() {
    let t = task();
    let mut rw = resolved();
    rw.isolation = Some(IsolationSpec {
        runtime_class: Some("kata".into()),
        worktrees: None,
    });
    let sb = build_sandbox(&t, &rw, &Settings::default());
    assert_eq!(
        sb.spec
            .pod_template
            .spec
            .unwrap()
            .runtime_class_name
            .as_deref(),
        Some("kata")
    );
}

#[test]
fn sandbox_runtime_class_task_override_wins_over_workspace() {
    let mut t = task();
    t.spec.isolation = Some(IsolationSpec {
        runtime_class: Some("gvisor".into()),
        worktrees: None,
    });
    let mut rw = resolved();
    rw.isolation = Some(IsolationSpec {
        runtime_class: Some("kata".into()),
        worktrees: None,
    });
    let sb = build_sandbox(&t, &rw, &Settings::default());
    assert_eq!(
        sb.spec
            .pod_template
            .spec
            .unwrap()
            .runtime_class_name
            .as_deref(),
        Some("gvisor")
    );
}

/// caliban reads `CALIBAN_ROUTER_CONFIG` as a *file path* to a
/// `caliban.toml`. Projecting the ConfigMap's name under
/// `CALIBAN_ROUTER_CONFIG_REF` reached nothing, so the ConfigMap must be
/// mounted and the env must point at the file inside that mount.
#[test]
fn sandbox_mounts_router_config_map_and_points_caliban_at_the_file() {
    let mut t = task();
    t.spec.model = Some(ModelSpec {
        router_config_ref: Some("caliban-router".into()),
    });
    let sb = build_sandbox(&t, &resolved(), &Settings::default());
    let pod = sb.spec.pod_template.spec.unwrap();

    let vol = pod
        .volumes
        .as_ref()
        .unwrap()
        .iter()
        .find(|v| v.name == "router-config")
        .expect("router-config volume");
    let cm = vol.config_map.as_ref().expect("ConfigMap volume source");
    assert_eq!(cm.name, "caliban-router");

    let c = &pod.containers[0];
    let mount = c
        .volume_mounts
        .as_ref()
        .unwrap()
        .iter()
        .find(|m| m.name == "router-config")
        .expect("router-config mount");
    assert_eq!(mount.mount_path, "/etc/caliban/router");
    assert_eq!(mount.read_only, Some(true));

    let env = c.env.as_ref().unwrap();
    let path = env
        .iter()
        .find(|e| e.name == "CALIBAN_ROUTER_CONFIG")
        .and_then(|e| e.value.as_deref())
        .expect("CALIBAN_ROUTER_CONFIG");
    assert_eq!(path, "/etc/caliban/router/caliban.toml");
    assert!(path.starts_with(&format!("{}/", mount.mount_path)));
    assert!(
        !env.iter().any(|e| e.name == "CALIBAN_ROUTER_CONFIG_REF"),
        "the inert _REF name must not be emitted"
    );
}

#[test]
fn sandbox_without_router_config_ref_adds_no_router_volume_or_env() {
    let sb = build_sandbox(&task(), &resolved(), &Settings::default());
    let pod = sb.spec.pod_template.spec.unwrap();
    assert!(!pod
        .volumes
        .unwrap_or_default()
        .iter()
        .any(|v| v.name == "router-config"));
    let c = &pod.containers[0];
    assert!(!c
        .volume_mounts
        .as_ref()
        .unwrap()
        .iter()
        .any(|m| m.name == "router-config"));
    assert!(!c
        .env
        .as_ref()
        .unwrap()
        .iter()
        .any(|e| e.name.starts_with("CALIBAN_ROUTER_CONFIG")));
}

#[test]
fn sandbox_projects_resolved_provider_and_workspace_env() {
    let t = task();
    let mut rw = resolved();
    rw.env = vec![EnvEntry {
        name: "FOO".into(),
        value: "bar".into(),
    }];
    let sb = build_sandbox(&t, &rw, &Settings::default());
    let pod = sb.spec.pod_template.spec.unwrap();
    let env = pod.containers[0].env.as_ref().unwrap();
    assert!(env
        .iter()
        .any(|e| e.name == "CALIBAN_PROVIDER" && e.value.as_deref() == Some("openai")));
    assert!(env
        .iter()
        .any(|e| e.name == "FOO" && e.value.as_deref() == Some("bar")));
}

#[test]
fn sandbox_wires_session_plane_tls_and_token() {
    let s = Settings::default();
    let sb = build_sandbox(&task(), &resolved(), &s);
    let pod = sb.spec.pod_template.spec.unwrap();
    let c = &pod.containers[0];

    // TLS args present and pointing at the mounted files.
    let args = c.args.as_ref().unwrap();
    let cert_idx = args
        .iter()
        .position(|a| a == "--tls-cert")
        .expect("--tls-cert");
    assert_eq!(args[cert_idx + 1], "/etc/caliband/tls/tls.crt");
    let key_idx = args
        .iter()
        .position(|a| a == "--tls-key")
        .expect("--tls-key");
    assert_eq!(args[key_idx + 1], "/etc/caliband/tls/tls.key");

    // Bearer token injected by reference (never inlined).
    let env = c.env.as_ref().unwrap();
    let tok = env
        .iter()
        .find(|e| e.name == "CALIBAN_DAEMON_TOKEN")
        .expect("token env");
    let sel = tok
        .value_from
        .as_ref()
        .unwrap()
        .secret_key_ref
        .as_ref()
        .unwrap();
    assert_eq!(sel.name, "caliban-session-plane-token");
    assert_eq!(sel.key, "token");
    assert!(
        tok.value.is_none(),
        "token must never be inlined as plaintext"
    );

    // TLS Secret mounted read-only at the expected path.
    let mount = c
        .volume_mounts
        .as_ref()
        .unwrap()
        .iter()
        .find(|m| m.mount_path == "/etc/caliband/tls")
        .expect("tls mount");
    assert_eq!(mount.read_only, Some(true));
    let vol = pod
        .volumes
        .as_ref()
        .unwrap()
        .iter()
        .find(|v| v.name == mount.name)
        .expect("tls volume");
    assert_eq!(
        vol.secret.as_ref().unwrap().secret_name.as_deref(),
        Some("caliban-session-plane-tls")
    );
}

/// caliband was launched with cert+key but no CA, so it had no trust
/// anchor to hand down to the workers it spawns. The CA is already in the
/// mounted `kubernetes.io/tls` Secret — only the flag was missing.
#[test]
fn sandbox_passes_session_plane_ca_to_caliband() {
    let sb = build_sandbox(&task(), &resolved(), &Settings::default());
    let pod = sb.spec.pod_template.spec.unwrap();
    let args = pod.containers[0].args.as_ref().unwrap();
    let ca_idx = args.iter().position(|a| a == "--tls-ca").expect("--tls-ca");
    assert_eq!(args[ca_idx + 1], "/etc/caliband/tls/ca.crt");
}

/// caliband ≥ 0.8.0 sets `CALIBAN_CONTROL_TLS_CA`
/// and `CALIBAN_CONTROL_TLS_SERVER_NAME` on each worker it spawns, explicitly,
/// from its own `--tls-ca` / `--tls-server-name`. The operator passes both
/// flags, so publishing the same values in the pod env is a second,
/// overridden mechanism that can only drift from the argv. It must be gone.
#[test]
fn caliband_env_carries_no_control_plane_tls_vars() {
    let sb = build_sandbox(&task(), &resolved(), &Settings::default());
    let pod = sb.spec.pod_template.spec.unwrap();
    let env = pod.containers[0].env.as_ref().unwrap();
    for name in ["CALIBAN_CONTROL_TLS_CA", "CALIBAN_CONTROL_TLS_SERVER_NAME"] {
        assert!(
            !env.iter().any(|e| e.name == name),
            "{name} belongs to caliband's worker launcher, not the pod env"
        );
    }
}

/// caliban's launcher sets each worker's
/// `CALIBAN_CONTROL_TLS_SERVER_NAME` explicitly from caliband's own resolved
/// name. That name must be the serving cert's SAN: the session-plane name,
/// never the per-pod advertise host. A mismatch fails the handshake and,
/// the status sink being best-effort, every Idle report is silently
/// dropped. So it must be on caliband's command line.
#[test]
fn sandbox_passes_session_server_name_to_caliband_on_the_command_line() {
    let sb = build_sandbox(&task(), &resolved(), &Settings::default());
    let pod = sb.spec.pod_template.spec.unwrap();
    let args = pod.containers[0].args.as_ref().unwrap();
    let idx = args
        .iter()
        .position(|a| a == "--tls-server-name")
        .expect("--tls-server-name must be on caliband's argv");
    assert_eq!(
        args[idx + 1],
        "caliband",
        "the verified name must be the serving cert's SAN"
    );
}

/// and it must track the configured SAN, not be hardcoded.
#[test]
fn caliband_argv_server_name_follows_settings() {
    let s = Settings {
        session_server_name: "sessions.example.svc".to_string(),
        ..Settings::default()
    };
    let sb = build_sandbox(&task(), &resolved(), &s);
    let pod = sb.spec.pod_template.spec.unwrap();
    let args = pod.containers[0].args.as_ref().unwrap();
    let idx = args
        .iter()
        .position(|a| a == "--tls-server-name")
        .expect("--tls-server-name");
    assert_eq!(args[idx + 1], "sessions.example.svc");
}

#[test]
fn plan_names_all_three_children() {
    let p = plan(&task(), &resolved(), &Settings::default());
    assert_eq!(
        p.service_account.metadata.name.as_deref(),
        Some("refactor-auth-sa")
    );
    assert_eq!(
        p.network_policy.metadata.name.as_deref(),
        Some("refactor-auth-netpol")
    );
    assert_eq!(
        p.sandbox.metadata.name.as_deref(),
        Some("refactor-auth-sbx")
    );
}

/// caliban reads **provider-native** env names — `ANTHROPIC_BASE_URL`
/// / `ANTHROPIC_API_KEY` for anthropic, and so on. It reads no
/// `CALIBAN_PROVIDER_BASE_URL` or `CALIBAN_API_KEY` at all, so projecting
/// under those names silently dropped both the endpoint and the credential.
#[test]
fn provider_env_projects_base_url_and_key_under_provider_native_names() {
    let rp = ResolvedProvider {
        name: "planner".into(),
        kind: "anthropic".into(),
        base_url: Some("https://api.anthropic.com".into()),
        model: Some("planner-model".into()),
        credentials_ref: Some(CredentialsRef {
            secret_name: "anthropic-key".into(),
            key: "api-key".into(),
        }),
    };
    let env = provider_env(&rp);
    let get = |n: &str| env.iter().find(|e| e.name == n).cloned();

    assert_eq!(
        get("ANTHROPIC_BASE_URL").unwrap().value.as_deref(),
        Some("https://api.anthropic.com"),
        "the base URL must land on the name caliban actually reads"
    );
    // Secret reaches the pod by reference, never inlined.
    let key = get("ANTHROPIC_API_KEY").expect("keyed provider projects its native API key env");
    assert!(key.value.is_none());
    let sel = key.value_from.unwrap().secret_key_ref.unwrap();
    assert_eq!(sel.name, "anthropic-key");
    assert_eq!(sel.key, "api-key");

    // The invented CALIBAN_* namespace caliban never implemented.
    assert!(
        get("CALIBAN_PROVIDER_BASE_URL").is_none(),
        "caliban never reads CALIBAN_PROVIDER_BASE_URL"
    );
    assert!(
        get("CALIBAN_API_KEY").is_none(),
        "caliban never reads CALIBAN_API_KEY"
    );
    // The model travels in caliband's SpawnSpec, not in env.
    assert!(
        get("CALIBAN_MODEL").is_none(),
        "caliban never reads CALIBAN_MODEL"
    );
}

/// the case that wedged the live cluster — a remote self-hosted
/// (openai-compatible) provider whose base URL never reached the client.
#[test]
fn provider_env_projects_openai_base_url() {
    let rp = ResolvedProvider {
        name: "workers".into(),
        kind: "openai".into(),
        base_url: Some("http://192.168.1.240:9292/v1".into()),
        model: None,
        credentials_ref: None,
    };
    let env = provider_env(&rp);
    assert_eq!(
        env.iter()
            .find(|e| e.name == "OPENAI_BASE_URL")
            .unwrap()
            .value
            .as_deref(),
        Some("http://192.168.1.240:9292/v1")
    );
}

/// caliban's google provider reads the `GEMINI_*` pair, so a naive
/// uppercase of the kind (`GOOGLE_*`) would miss it.
#[test]
fn provider_env_maps_google_kind_onto_the_gemini_env_pair() {
    let rp = ResolvedProvider {
        name: "g".into(),
        kind: "google".into(),
        base_url: Some("https://generativelanguage.googleapis.com".into()),
        model: None,
        credentials_ref: Some(CredentialsRef {
            secret_name: "g-key".into(),
            key: "api-key".into(),
        }),
    };
    let env = provider_env(&rp);
    assert!(env.iter().any(|e| e.name == "GEMINI_BASE_URL"));
    assert!(env.iter().any(|e| e.name == "GEMINI_API_KEY"));
    assert!(!env.iter().any(|e| e.name == "GOOGLE_BASE_URL"));
}

#[test]
fn provider_env_keyless_has_no_api_key() {
    let rp = ResolvedProvider {
        name: "workers".into(),
        kind: "openai".into(),
        base_url: Some("http://192.168.1.240:9292/v1".into()),
        model: None,
        credentials_ref: None,
    };
    let env = provider_env(&rp);
    assert!(!env.iter().any(|e| e.name.ends_with("_API_KEY")));
    // CALIBAN_PROVIDER is still projected: caliban does not use it to select
    // a provider,
    // but it is the documented input to a user-configured `apiKeyHelper`.
    assert_eq!(
        env.iter()
            .find(|e| e.name == "CALIBAN_PROVIDER")
            .unwrap()
            .value
            .as_deref(),
        Some("openai")
    );
}
fn env_value(c: &Container, name: &str) -> Option<String> {
    c.env
        .as_ref()
        .and_then(|env| env.iter().find(|e| e.name == name))
        .and_then(|e| e.value.clone())
}

#[test]
fn ingress_is_narrowed_to_the_selected_pods() {
    let mut labels = StringMap::new();
    labels.insert("app".to_string(), "prosperod".to_string());
    let s = Settings {
        ingress_pod_selector: labels.clone(),
        ..Settings::default()
    };
    let np = build_network_policy(&task(), &s);
    let peer = np.spec.unwrap().ingress.unwrap()[0].from.clone().unwrap().remove(0);
    assert_eq!(peer.pod_selector.unwrap().match_labels, Some(labels));
    assert!(peer.namespace_selector.is_none());
    assert!(peer.ip_block.is_none());
}

#[test]
fn ingress_is_admitted_from_the_configured_namespace() {
    let s = Settings {
        ingress_namespace: Some("control".to_string()),
        ..Settings::default()
    };
    let np = build_network_policy(&task(), &s);
    let peer = np.spec.unwrap().ingress.unwrap()[0].from.clone().unwrap().remove(0);
    // Every pod of that namespace.
    assert!(peer.pod_selector.unwrap().match_labels.is_none());
    let labels = peer.namespace_selector.unwrap().match_labels.unwrap();
    assert_eq!(
        labels.get("kubernetes.io/metadata.name").map(String::as_str),
        Some("control")
    );
}

#[test]
fn a_restricted_workspace_reaches_dns_and_the_listed_blocks_only() {
    let egress = EgressSpec {
        allow: vec![
            EgressRule {
                cidr: "10.0.0.0/8".into(),
                ports: vec![443, 22],
            },
            EgressRule {
                cidr: "2001:db8::/32".into(),
                ports: vec![],
            },
        ],
    };
    let np = restricted_network_policy(&task(), Some(&egress), &Settings::default());
    let rules = np.spec.unwrap().egress.unwrap();
    assert_eq!(rules.len(), 3);
    let dns = rules[0].ports.as_ref().unwrap();
    assert!(rules[0].to.is_none());
    assert_eq!(dns.len(), 2);
    assert!(dns.iter().all(|p| p.port == Some(53) && p.end_port.is_none()));
    assert_eq!(dns[0].protocol.as_deref(), Some("UDP"));
    assert_eq!(dns[1].protocol.as_deref(), Some("TCP"));
    let block = |i: usize| {
        rules[i].to.as_ref().unwrap()[0]
            .ip_block
            .as_ref()
            .unwrap()
            .cidr
            .clone()
    };
    assert_eq!(block(1), "10.0.0.0/8");
    assert_eq!(block(2), "2001:db8::/32");
    let ports: Vec<Option<i32>> = rules[1].ports.as_ref().unwrap().iter().map(|p| p.port).collect();
    assert_eq!(ports, vec![Some(443), Some(22)]);
    assert!(rules[2].ports.is_none());
}

#[test]
fn an_empty_allow_list_leaves_dns_alone() {
    let egress = EgressSpec { allow: vec![] };
    let np = restricted_network_policy(&task(), Some(&egress), &Settings::default());
    let rules = np.spec.unwrap().egress.unwrap();
    assert_eq!(rules.len(), 1);
    assert!(rules[0].ports.is_some());
}

#[test]
fn the_plan_carries_the_workspaces_egress() {
    let mut rw = resolved();
    rw.egress = Some(EgressSpec { allow: vec![] });
    let p = plan(&task(), &rw, &Settings::default());
    assert_eq!(p.network_policy.spec.unwrap().egress.unwrap().len(), 1);
    let p = plan(&task(), &resolved(), &Settings::default());
    let rules = p.network_policy.spec.unwrap().egress.unwrap();
    assert_eq!(rules.len(), 2);
    assert!(rules[1].ports.is_none() && rules[1].to.is_none());
}

#[test]
fn the_policy_selects_the_labels_of_the_pod() {
    let p = plan(&task(), &resolved(), &Settings::default());
    assert_eq!(
        p.network_policy.spec.unwrap().pod_selector.unwrap().match_labels,
        p.sandbox.spec.pod_template.metadata.unwrap().labels
    );
    for meta in [
        &p.service_account.metadata,
        &p.network_policy.metadata,
        &p.sandbox.metadata,
    ] {
        assert_eq!(meta.namespace.as_deref(), Some("team-a"));
        let owners = meta.owner_references.as_ref().unwrap();
        assert_eq!(owners.len(), 1);
        assert_eq!(owners[0].uid, "uid-123");
        assert_eq!(owners[0].block_owner_deletion, Some(true));
    }
}

#[test]
fn state_reaches_caliband_before_everything_else() {
    let mut t = task();
    t.spec.state = Some(StateSpec {
        gonzalo_endpoint: Some("http://g:8080".into()),
        mode: None,
        token_ref: None,
    });
    let sb = build_sandbox(&t, &resolved(), &Settings::default());
    let c = sb.spec.pod_template.spec.unwrap().containers.remove(0);
    assert_eq!(env_value(&c, "CALIBAN_STORAGE_SUBSTRATE").as_deref(), Some("remote"));
    assert_eq!(env_value(&c, "CALIBAN_STORAGE_REMOTE_URL").as_deref(), Some("http://g:8080"));
    assert_eq!(env_value(&c, "GONZALO_ENDPOINT"), None);
    let names: Vec<String> = c.env.unwrap().into_iter().map(|e| e.name).collect();
    assert_eq!(
        names,
        vec![
            "CALIBAN_STORAGE_SUBSTRATE",
            "CALIBAN_STORAGE_REMOTE_URL",
            "CALIBAN_PROVIDER",
            "CALIBAN_DAEMON_TOKEN",
        ]
    );
}

#[test]
fn the_command_line_is_complete() {
    let sb = build_sandbox(&task(), &resolved(), &Settings::default());
    let c = sb.spec.pod_template.spec.unwrap().containers.remove(0);
    assert_eq!(
        c.args.unwrap(),
        vec![
            "--workspace-root",
            "/work",
            "--listen",
            "0.0.0.0:8443",
            "--advertise-host",
            "refactor-auth-sbx.team-a.svc.cluster.local",
            "--agent-port-base",
            "7100",
            "--tls-cert",
            "/etc/caliband/tls/tls.crt",
            "--tls-key",
            "/etc/caliband/tls/tls.key",
            "--tls-ca",
            "/etc/caliband/tls/ca.crt",
            "--tls-server-name",
            "caliband",
        ]
    );
    let ready = c.readiness_probe.unwrap();
    assert_eq!((ready.period_seconds, ready.failure_threshold), (Some(5), Some(3)));
    let started = c.startup_probe.unwrap();
    assert_eq!((started.period_seconds, started.failure_threshold), (Some(2), Some(60)));
}

#[test]
fn the_clone_script_has_one_line_per_source() {
    let mut rw = resolved();
    rw.sources.push(Source {
        name: "two".into(),
        repo: "r 2".into(),
        git_ref: "v1".into(),
        path: "/work/b".into(),
    });
    let sb = build_sandbox(&task(), &rw, &Settings::default());
    let init = sb.spec.pod_template.spec.unwrap().init_containers.unwrap().remove(0);
    assert_eq!(
        init.command.unwrap()[2],
        "set -eu\n\
         if [ ! -d '/work/caliban/.git' ]; then git clone --depth 1 --branch 'main' 'git@x:caliban' '/work/caliban'; fi\n\
         if [ ! -d '/work/b/.git' ]; then git clone --depth 1 --branch 'v1' 'r 2' '/work/b'; fi\n"
    );
}

#[test]
fn provider_variables_follow_the_kind_whatever_its_case() {
    let prefix = |kind: &str| {
        let rp = ResolvedProvider {
            name: "p".into(),
            kind: kind.into(),
            base_url: Some("u".into()),
            model: None,
            credentials_ref: Some(CredentialsRef {
                secret_name: "s".into(),
                key: "k".into(),
            }),
        };
        let env = provider_env(&rp);
        assert_eq!(env.len(), 3);
        assert_eq!(env[0].value.as_deref(), Some(kind));
        let base = env[1].name.strip_suffix("_BASE_URL").unwrap().to_string();
        assert_eq!(env[2].name, format!("{base}_API_KEY"));
        base
    };
    assert_eq!(prefix("openai"), "OPENAI");
    assert_eq!(prefix("OpenAI"), "OPENAI");
    assert_eq!(prefix("Google"), "GEMINI");
    assert_eq!(prefix("GEMINI"), "GEMINI");
    assert_eq!(prefix("azure"), "AZURE_OPENAI");
    assert_eq!(prefix("azure-openai"), "AZURE_OPENAI");
    assert_eq!(prefix("Azure_OpenAI"), "AZURE_OPENAI");
    assert_eq!(prefix("azure.openai"), "AZURE_OPENAI");
    assert_eq!(prefix("my-llm.v2"), "MY_LLM_V2");
    assert_eq!(prefix("é-x"), "é_X");
}

#[test]
fn one_configured_quantity_is_enough_for_a_resources_block() {
    let s = Settings {
        caliband_cpu_request: None,
        caliband_memory_request: None,
        caliband_memory_limit: Some("1Gi".into()),
        ..Settings::default()
    };
    for c in sandbox_containers(&s) {
        let r = c.resources.unwrap();
        assert!(r.requests.is_none());
        let limits = r.limits.unwrap();
        assert_eq!(limits.get("memory").map(String::as_str), Some("1Gi"));
        assert!(limits.get("cpu").is_none());
    }
}

#[test]
fn the_workspace_claim_asks_for_the_configured_size() {
    let s = Settings {
        workspace_storage: "20Gi".into(),
        ..Settings::default()
    };
    let sb = build_sandbox(&task(), &resolved(), &s);
    assert_eq!(sb.spec.operating_mode.as_deref(), Some("Running"));
    assert!(sb.status.is_none());
    let claim = sb.spec.volume_claim_templates.unwrap().remove(0).spec.unwrap();
    assert_eq!(claim.access_modes.unwrap(), vec!["ReadWriteOnce"]);
    let requests = claim.resources.unwrap().requests.unwrap();
    assert_eq!(requests.get("storage").map(String::as_str), Some("20Gi"));
}
