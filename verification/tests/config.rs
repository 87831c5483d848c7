use caliban_operator::config::{
    caliband_advertise_host, cluster_domain, common_labels, netpol_name, optional_quantity,
    owner_ref, parse_selector, sa_name, sandbox_name, task_name_problem, Settings,
};
use caliban_operator::crd::{CalibanTask, CalibanTaskSpec, TaskSpec, WorkspaceRef};
use caliban_operator::string_map::StringMap;

fn task() -> CalibanTask {
    let mut t = CalibanTask::new(
        "refactor-auth",
        CalibanTaskSpec {
            workspace_ref: WorkspaceRef {
                name: "team-a-ws".into(),
            },
            provider_ref: None,
            task: TaskSpec {
                prompt: "hi".into(),
                agent_type: None,
                interactive: None,
                permission_posture: None,
            },
            model: None,
            state: None,
            isolation: None,
            resources: None,
            lifecycle: None,
            tools: None,
        },
    );
    t.metadata.namespace = Some("team-a".into());
    t.metadata.uid = Some("uid-123".into());
    t
}

fn map(entries: &[(&str, &str)]) -> StringMap {
    let mut m = StringMap::new();
    for (k, v) in entries {
        m.insert(k.to_string(), v.to_string());
    }
    m
}

#[test]
fn names_are_deterministic() {
    let t = task();
    assert_eq!(sandbox_name(&t), "refactor-auth-sbx");
    assert_eq!(sa_name(&t), "refactor-auth-sa");
    assert_eq!(netpol_name(&t), "refactor-auth-netpol");
}

#[test]
fn owner_ref_is_controller_with_uid() {
    let o = owner_ref(&task());
    assert_eq!(o.kind, "CalibanTask");
    assert_eq!(o.api_version, "caliban.caliban-ai.dev/v1alpha1");
    assert_eq!(o.name, "refactor-auth");
    assert_eq!(o.uid, "uid-123");
    assert_eq!(o.controller, Some(true));
}

#[test]
fn from_env_defaults_are_neutral() {
    let s = Settings::default();
    assert_eq!(s.caliband_port, 8443);
    assert!(!s.caliband_image.contains("home"));
    assert_eq!(s.workspace_root, "/work");
    assert!(!s.git_image.contains("home"));
    assert!(!s.git_image.is_empty());
}

#[test]
fn session_plane_defaults_match_the_shared_secret_names() {
    let s = Settings::default();
    assert_eq!(s.session_tls_secret, "caliban-session-plane-tls");
    assert_eq!(s.session_token_secret, "caliban-session-plane-token");
    assert_eq!(s.session_token_key, "token");
}

/// The CA is only usable if the name being verified matches the serving cert's SAN.
#[test]
fn session_server_name_defaults_to_the_serving_cert_san() {
    assert_eq!(Settings::default().session_server_name, "caliband");
}

/// Requests by default make the pod Burstable; limits stay opt-in.
#[test]
fn sandbox_resource_defaults_request_but_do_not_limit() {
    let s = Settings::default();
    assert_eq!(s.caliband_cpu_request.as_deref(), Some("250m"));
    assert_eq!(s.caliband_memory_request.as_deref(), Some("512Mi"));
    assert!(s.caliband_cpu_limit.is_none());
    assert!(s.caliband_memory_limit.is_none());
}

#[test]
fn optional_quantity_env_unset_uses_default_set_overrides_empty_disables() {
    assert_eq!(optional_quantity(None, Some("250m")), Some("250m".into()));
    assert_eq!(
        optional_quantity(Some("1".into()), Some("250m")),
        Some("1".into())
    );
    // An explicitly empty value opts out of the default entirely.
    assert_eq!(optional_quantity(Some(String::new()), Some("250m")), None);
    assert_eq!(optional_quantity(Some("  ".into()), None), None);
    assert_eq!(optional_quantity(None, None), None);
}

#[test]
fn optional_quantity_is_trimmed() {
    assert_eq!(
        optional_quantity(Some(" \t2Gi\u{a0}\n".into()), None),
        Some("2Gi".into())
    );
    assert_eq!(optional_quantity(Some("\u{3000}\u{2028}".into()), Some("1")), None);
}

#[test]
fn agent_port_defaults_open_the_per_agent_window() {
    let s = Settings::default();
    assert_eq!(s.agent_port_base, 7100);
    assert_eq!(s.agent_port_end, 7999);
}

#[test]
fn caliband_advertise_host_is_the_sandbox_service_fqdn() {
    let t = task();
    assert_eq!(
        caliband_advertise_host(&t, &Settings::default()),
        "refactor-auth-sbx.team-a.svc.cluster.local"
    );
}

#[test]
fn advertise_host_without_a_namespace_leaves_it_empty() {
    let mut t = task();
    t.metadata.namespace = None;
    assert_eq!(
        caliband_advertise_host(&t, &Settings::default()),
        "refactor-auth-sbx..svc.cluster.local"
    );
}

#[test]
fn cluster_domain_defaults_to_cluster_local() {
    assert_eq!(Settings::default().cluster_domain, "cluster.local");
}

#[test]
fn advertise_host_uses_the_configured_cluster_domain() {
    let s = Settings {
        cluster_domain: "corp.internal".to_string(),
        ..Settings::default()
    };
    assert_eq!(
        caliband_advertise_host(&task(), &s),
        "refactor-auth-sbx.team-a.svc.corp.internal"
    );
}

/// An unset or blank value keeps the default; a fully-qualified value with a trailing dot must not
/// yield a doubled root.
#[test]
fn cluster_domain_env_value_is_normalised() {
    assert_eq!(cluster_domain(None), "cluster.local");
    assert_eq!(cluster_domain(Some("   ".into())), "cluster.local");
    assert_eq!(
        cluster_domain(Some("corp.internal".into())),
        "corp.internal"
    );
    assert_eq!(
        cluster_domain(Some(" corp.internal. ".into())),
        "corp.internal"
    );
}

#[test]
fn cluster_domain_of_dots_alone_is_the_default() {
    assert_eq!(cluster_domain(Some("...".into())), "cluster.local");
    assert_eq!(cluster_domain(Some("a..".into())), "a");
    // A dot behind white space is not at the end of the trimmed value's last label.
    assert_eq!(cluster_domain(Some("a .".into())), "a ");
}

#[test]
fn default_settings_are_valid() {
    assert_eq!(Settings::default().validate(), Ok(()));
}

/// A bad port window is rejected once, at startup.
#[test]
fn an_empty_agent_port_window_is_rejected() {
    let s = Settings {
        agent_port_base: 8000,
        agent_port_end: 7000,
        ..Settings::default()
    };
    let err = s.validate().unwrap_err();
    assert!(err.contains("CALIBAN_AGENT_PORT_BASE"), "{err}");
}

/// The control port inside the agent window would let caliband hand a per-agent stream the port it
/// is already listening on.
#[test]
fn a_control_port_inside_the_agent_window_is_rejected() {
    let s = Settings {
        caliband_port: 7500,
        ..Settings::default()
    };
    let err = s.validate().unwrap_err();
    assert!(err.contains("CALIBAND_PORT"), "{err}");
}

#[test]
fn out_of_range_ports_are_rejected() {
    for s in [
        Settings {
            caliband_port: 0,
            ..Settings::default()
        },
        Settings {
            agent_port_end: 70_000,
            ..Settings::default()
        },
    ] {
        assert!(s.validate().is_err(), "{s:?}");
    }
}

#[test]
fn each_rejected_setting_says_why() {
    let d = Settings::default;
    assert_eq!(
        Settings { caliband_port: -1, ..d() }.validate(),
        Err("CALIBAND_PORT -1 is outside 1-65535".to_string())
    );
    assert_eq!(
        Settings { agent_port_base: 0, ..d() }.validate(),
        Err("CALIBAN_AGENT_PORT_BASE 0 is outside 1-65535".to_string())
    );
    assert_eq!(
        Settings { agent_port_end: 65536, ..d() }.validate(),
        Err("CALIBAN_AGENT_PORT_END 65536 is outside 1-65535".to_string())
    );
    assert_eq!(
        Settings { agent_port_base: 8000, agent_port_end: 7000, ..d() }.validate(),
        Err(
            "agent port window is empty: CALIBAN_AGENT_PORT_BASE 8000 > CALIBAN_AGENT_PORT_END 7000"
                .to_string()
        )
    );
    assert_eq!(
        Settings { caliband_port: 7999, ..d() }.validate(),
        Err("CALIBAND_PORT 7999 falls inside the agent port window 7100-7999".to_string())
    );
    assert_eq!(Settings { caliband_port: 8000, ..d() }.validate(), Ok(()));
    assert_eq!(Settings { caliband_port: 7099, ..d() }.validate(), Ok(()));
    assert_eq!(Settings { agent_port_end: 8442, ..d() }.validate(), Ok(()));
    assert_eq!(
        Settings { env_errors: vec!["a".into(), "b".into()], ..d() }.validate(),
        Err("a; b".to_string())
    );
}

/// The Sandbox's headless Service is named after the Sandbox, and a Service name has at most 63
/// characters.
#[test]
fn a_task_name_that_fits_the_sandbox_service_is_accepted() {
    let mut t = task();
    t.metadata.name = Some("a".repeat(59));
    assert!(task_name_problem(&t).is_none());
}

#[test]
fn a_task_name_too_long_for_the_sandbox_service_is_reported() {
    let mut t = task();
    t.metadata.name = Some("a".repeat(60));
    let msg = task_name_problem(&t).expect("a 60-character name is too long");
    assert!(msg.contains("63"), "{msg}");
}

#[test]
fn a_long_task_name_is_reported_in_full_and_measured_in_bytes() {
    let mut t = task();
    let name = "a".repeat(60);
    t.metadata.name = Some(name.clone());
    assert_eq!(
        task_name_problem(&t),
        Some(format!(
            "task name '{name}' is 60 characters; its Sandbox Service name '{name}-sbx' must be at most 63 characters (task names up to 59)"
        ))
    );
    t.metadata.name = Some("é".repeat(29));
    assert!(task_name_problem(&t).is_none());
    t.metadata.name = Some("é".repeat(30));
    assert!(task_name_problem(&t).unwrap().contains("is 60 characters"));
}

#[test]
fn a_generated_name_stands_in_for_a_missing_one() {
    let mut t = task();
    t.metadata.name = None;
    t.metadata.generate_name = Some("gen-".into());
    assert_eq!(sandbox_name(&t), "gen--sbx");
    t.metadata.generate_name = None;
    assert_eq!(sandbox_name(&t), "-sbx");
    t.metadata.uid = None;
    assert_eq!(owner_ref(&t).uid, "");
}

/// The default ingress peer is every pod in the task's own namespace.
#[test]
fn ingress_defaults_admit_every_pod_in_the_task_namespace() {
    let s = Settings::default();
    assert!(s.ingress_pod_selector.is_empty());
    assert!(s.ingress_namespace.is_none());
    assert!(s.env_errors.is_empty());
}

#[test]
fn ingress_pod_selector_parses_comma_separated_labels() {
    let m = parse_selector("app.kubernetes.io/name=prosperod, tier=control").unwrap();
    assert_eq!(
        m,
        map(&[
            ("app.kubernetes.io/name", "prosperod"),
            ("tier", "control"),
        ])
    );
    assert!(parse_selector("").unwrap().is_empty());
    assert!(parse_selector("  ").unwrap().is_empty());
}

/// A malformed selector must not silently widen or drop the rule.
#[test]
fn a_malformed_ingress_selector_is_rejected() {
    assert!(parse_selector("app").is_err());
    assert!(parse_selector("=prosperod").is_err());
    assert!(parse_selector("app=").is_err());
}

#[test]
fn selector_entries_are_read_from_left_to_right() {
    assert_eq!(parse_selector("a=1,a=2").unwrap(), map(&[("a", "2")]));
    assert_eq!(parse_selector("a=b=c").unwrap(), map(&[("a", "b=c")]));
    assert_eq!(parse_selector(",, a = 1 ,").unwrap(), map(&[("a", "1")]));
    assert_eq!(
        parse_selector("a=1, b ,c").unwrap_err(),
        "bad selector entry 'b' (want key=value)"
    );
}

/// Bad environment values are recorded and rejected at startup by `validate`, naming the variable.
#[test]
fn validate_reports_env_errors() {
    let s = Settings {
        env_errors: vec!["CALIBAN_INGRESS_POD_SELECTOR: bad entry 'app'".into()],
        ..Settings::default()
    };
    let err = s.validate().unwrap_err();
    assert!(err.contains("CALIBAN_INGRESS_POD_SELECTOR"), "{err}");
}

#[test]
fn an_empty_environment_gives_the_defaults() {
    let a = Settings::from_env(&StringMap::new());
    assert_eq!(format!("{a:?}"), format!("{:?}", Settings::default()));
}

#[test]
fn every_variable_is_read() {
    let s = Settings::from_env(&map(&[
        ("CALIBAND_IMAGE", "img"),
        ("CALIBAND_PORT", "+9000"),
        ("CALIBAN_AGENT_PORT_BASE", "-5"),
        ("CALIBAN_AGENT_PORT_END", "2147483648"),
        ("CALIBAN_WORKSPACE_ROOT", "/w"),
        ("CALIBAN_WORKSPACE_STORAGE", "1Gi"),
        ("CALIBAN_GIT_IMAGE", "git"),
        ("CALIBAN_SESSION_TLS_SECRET", "tls"),
        ("CALIBAN_SESSION_TOKEN_SECRET", "tok"),
        ("CALIBAN_SESSION_TOKEN_KEY", "k"),
        ("CALIBAN_SESSION_SERVER_NAME", "srv"),
        ("CALIBAND_CPU_REQUEST", ""),
        ("CALIBAND_MEMORY_REQUEST", " 1Gi "),
        ("CALIBAND_CPU_LIMIT", "2"),
        ("CALIBAND_MEMORY_LIMIT", "4Gi"),
        ("CALIBAN_CLUSTER_DOMAIN", "corp."),
        ("CALIBAN_INGRESS_POD_SELECTOR", "app=prosperod"),
        ("CALIBAN_INGRESS_NAMESPACE", " control "),
    ]));
    assert_eq!(s.caliband_image, "img");
    assert_eq!(s.caliband_port, 9000);
    assert_eq!(s.agent_port_base, -5);
    // Out of range for the type: the default stays.
    assert_eq!(s.agent_port_end, 7999);
    assert_eq!(s.workspace_root, "/w");
    assert_eq!(s.workspace_storage, "1Gi");
    assert_eq!(s.git_image, "git");
    assert_eq!(s.session_tls_secret, "tls");
    assert_eq!(s.session_token_secret, "tok");
    assert_eq!(s.session_token_key, "k");
    assert_eq!(s.session_server_name, "srv");
    assert_eq!(s.caliband_cpu_request, None);
    assert_eq!(s.caliband_memory_request.as_deref(), Some("1Gi"));
    assert_eq!(s.caliband_cpu_limit.as_deref(), Some("2"));
    assert_eq!(s.caliband_memory_limit.as_deref(), Some("4Gi"));
    assert_eq!(s.cluster_domain, "corp");
    assert_eq!(s.ingress_pod_selector, map(&[("app", "prosperod")]));
    assert_eq!(s.ingress_namespace.as_deref(), Some("control"));
    assert!(s.env_errors.is_empty());
}

#[test]
fn unreadable_ports_keep_their_defaults() {
    for bad in ["", " 1", "1 ", "0x10", "+", "-", "1e3", "٣"] {
        let s = Settings::from_env(&map(&[("CALIBAND_PORT", bad)]));
        assert_eq!(s.caliband_port, 8443, "{bad:?}");
    }
    let s = Settings::from_env(&map(&[("CALIBAND_PORT", "-2147483648")]));
    assert_eq!(s.caliband_port, i32::MIN);
    let s = Settings::from_env(&map(&[("CALIBAND_PORT", "0002147483647")]));
    assert_eq!(s.caliband_port, i32::MAX);
}

#[test]
fn a_bad_selector_in_the_environment_is_recorded_and_rejected() {
    let s = Settings::from_env(&map(&[
        ("CALIBAN_INGRESS_POD_SELECTOR", "ok=1,app"),
        ("CALIBAN_INGRESS_NAMESPACE", "  "),
    ]));
    assert!(s.ingress_pod_selector.is_empty());
    assert!(s.ingress_namespace.is_none());
    assert_eq!(
        s.validate(),
        Err(
            "CALIBAN_INGRESS_POD_SELECTOR: bad selector entry 'app' (want key=value)".to_string()
        )
    );
}

#[test]
fn labels_key_the_children_to_their_task() {
    assert_eq!(
        common_labels(&task()),
        map(&[
            ("app.kubernetes.io/managed-by", "caliban-operator"),
            ("caliban.caliban-ai.dev/task", "refactor-auth"),
        ])
    );
}

#[test]
fn a_map_keeps_its_keys_in_order() {
    let m = map(&[("b", "2"), ("é", "4"), ("a", "1"), ("b", "3"), ("ab", "5"), ("", "0")]);
    let entries: Vec<(&str, &str)> = m
        .entries()
        .iter()
        .map(|e| (e.key.as_str(), e.value.as_str()))
        .collect();
    assert_eq!(
        entries,
        vec![("", "0"), ("a", "1"), ("ab", "5"), ("b", "3"), ("é", "4")]
    );
    assert_eq!(m.get("b").map(String::as_str), Some("3"));
    assert!(m.get("c").is_none());
    assert!(m.contains_key("é") && !m.contains_key("e"));
    assert!(!m.is_empty() && StringMap::new().is_empty());
    assert_eq!(m.clone(), m);
}
