use std::cell::RefCell;
use std::path::{Component, Path};

use caliban_operator::workspace::{
    resolve_workspace, validate_workspace, AgentPolicy, CredentialsRef, EgressRule, EgressSpec,
    Provider, Source, WorkspacePhase, WorkspaceSpec, WorkspaceValidation,
};

fn spec_with(providers: Vec<Provider>, default_provider: Option<&str>) -> WorkspaceSpec {
    WorkspaceSpec {
        display_name: "Team A".into(),
        sources: vec![Source {
            name: "caliban".into(),
            repo: "git@x:caliban".into(),
            git_ref: "main".into(),
            path: "/work/caliban".into(),
        }],
        providers,
        default_provider: default_provider.map(String::from),
        env: vec![],
        isolation: None,
        egress: None,
        agent_policy: None,
    }
}

fn provider(name: &str, cred: Option<(&str, &str)>) -> Provider {
    Provider {
        name: name.into(),
        kind: "anthropic".into(),
        base_url: None,
        model: None,
        credentials_ref: cred.map(|(s, k)| CredentialsRef {
            secret_name: s.into(),
            key: k.into(),
        }),
    }
}

#[test]
fn valid_workspace_is_ready() {
    let spec = spec_with(
        vec![provider("planner", Some(("anthropic-key", "api-key")))],
        Some("planner"),
    );
    let v = validate_workspace(&spec, "/work", |s, k| {
        s == "anthropic-key" && k == "api-key"
    });
    assert_eq!(v.phase, WorkspacePhase::Ready);
    assert!(v.message.is_none());
}

fn egress(cidr: &str, ports: &[i32]) -> EgressSpec {
    EgressSpec {
        allow: vec![EgressRule {
            cidr: cidr.into(),
            ports: ports.to_vec(),
        }],
    }
}

/// the allow-list is workspace-wide and pinned at admission, like the
/// rest of the workspace config a task runs against.
#[test]
fn resolve_pins_the_workspace_egress_allow_list() {
    let mut spec = spec_with(vec![provider("workers", None)], None);
    spec.egress = Some(egress("10.0.0.0/8", &[443]));
    let rw = resolve_workspace(&spec, None).unwrap();
    assert_eq!(rw.egress.unwrap().allow[0].cidr, "10.0.0.0/8");
}

#[test]
fn a_well_formed_egress_allow_list_is_ready() {
    let mut spec = spec_with(vec![provider("workers", None)], None);
    spec.egress = Some(EgressSpec {
        allow: vec![
            EgressRule {
                cidr: "10.0.0.0/8".into(),
                ports: vec![443],
            },
            EgressRule {
                cidr: "2001:db8::/32".into(),
                ports: vec![],
            },
        ],
    });
    let v = validate_workspace(&spec, "/work", |_, _| true);
    assert_eq!(v.phase, WorkspacePhase::Ready, "{:?}", v.message);
}

/// A malformed rule would otherwise reach the NetworkPolicy and be rejected
/// on every apply, or silently block the destination the user meant to allow.
#[test]
fn a_malformed_egress_cidr_fails_naming_it() {
    for bad in [
        "10.0.0.0",
        "300.1.1.1/8",
        "10.0.0.0/33",
        "2001:db8::/129",
        "example.com/32",
    ] {
        let mut spec = spec_with(vec![provider("workers", None)], None);
        spec.egress = Some(egress(bad, &[]));
        let v = validate_workspace(&spec, "/work", |_, _| true);
        assert_eq!(v.phase, WorkspacePhase::Failed, "{bad}");
        assert!(v.message.unwrap().contains(bad), "{bad}");
    }
}

#[test]
fn an_out_of_range_egress_port_fails() {
    for bad in [0, 70_000] {
        let mut spec = spec_with(vec![provider("workers", None)], None);
        spec.egress = Some(egress("10.0.0.0/8", &[bad]));
        let v = validate_workspace(&spec, "/work", |_, _| true);
        assert_eq!(v.phase, WorkspacePhase::Failed, "{bad}");
    }
}

#[test]
fn keyless_provider_needs_no_secret() {
    let mut p = provider("workers", None);
    p.kind = "openai".into();
    let spec = spec_with(vec![p], None);
    let v = validate_workspace(&spec, "/work", |_, _| false); // no secrets exist at all
    assert_eq!(v.phase, WorkspacePhase::Ready);
}

#[test]
fn missing_secret_fails_with_message() {
    let spec = spec_with(
        vec![provider("planner", Some(("anthropic-key", "api-key")))],
        None,
    );
    let v = validate_workspace(&spec, "/work", |_, _| false);
    assert_eq!(v.phase, WorkspacePhase::Failed);
    assert_eq!(
        v.message.as_deref(),
        Some("provider 'planner': secret 'anthropic-key' key 'api-key' not found")
    );
}

#[test]
fn duplicate_provider_names_fail() {
    let spec = spec_with(
        vec![provider("planner", None), provider("planner", None)],
        None,
    );
    let v = validate_workspace(&spec, "/work", |_, _| true);
    assert_eq!(v.phase, WorkspacePhase::Failed);
    assert_eq!(
        v.message.as_deref(),
        Some("duplicate provider name 'planner'")
    );
}

#[test]
fn dangling_default_provider_fails() {
    let spec = spec_with(vec![provider("planner", None)], Some("nope"));
    let v = validate_workspace(&spec, "/work", |_, _| true);
    assert_eq!(v.phase, WorkspacePhase::Failed);
    assert_eq!(
        v.message.as_deref(),
        Some("defaultProvider 'nope' names no provider")
    );
}

/// A spec whose sources sit at `paths` (named `s0`, `s1`, …) with one
/// keyless provider, so only source-path validation can fail.
fn spec_with_paths(paths: &[&str]) -> WorkspaceSpec {
    let mut spec = spec_with(vec![provider("workers", None)], None);
    spec.sources = paths
        .iter()
        .enumerate()
        .map(|(i, p)| Source {
            name: format!("s{i}"),
            repo: "git@x:r".into(),
            git_ref: "main".into(),
            path: (*p).into(),
        })
        .collect();
    spec
}

fn validate_paths(root: &str, paths: &[&str]) -> WorkspaceValidation {
    validate_workspace(&spec_with_paths(paths), root, |_, _| true)
}

// the clone init container mounts the PVC at the workspace root; a
// source outside it clones into the container's ephemeral layer and is
// silently lost (and re-cloned) on every restart.

#[test]
fn sources_under_the_workspace_root_are_ready() {
    let v = validate_paths("/work", &["/work/caliban", "/work/team/app"]);
    assert_eq!(v.phase, WorkspacePhase::Ready);
    assert!(v.message.is_none());
}

#[test]
fn a_trailing_slash_on_the_root_is_tolerated() {
    let v = validate_paths("/work/", &["/work/caliban"]);
    assert_eq!(v.phase, WorkspacePhase::Ready);
}

#[test]
fn a_source_outside_the_root_fails_naming_the_source() {
    let v = validate_paths("/work", &["/srv/app"]);
    assert_eq!(v.phase, WorkspacePhase::Failed);
    assert_eq!(
        v.message.as_deref(),
        Some(
            "source 's0': path '/srv/app' must be a directory under the workspace root '/work'"
        )
    );
}

#[test]
fn a_sibling_sharing_the_root_as_a_string_prefix_fails() {
    // `/workspace/x` starts with the string `/work` but is not under it.
    let v = validate_paths("/work", &["/workspace/x"]);
    assert_eq!(v.phase, WorkspacePhase::Failed);
}

#[test]
fn a_source_at_the_root_itself_fails() {
    // Cloning into the mount root would collide with every other source.
    let v = validate_paths("/work", &["/work"]);
    assert_eq!(v.phase, WorkspacePhase::Failed);
    let v = validate_paths("/work", &["/work/"]);
    assert_eq!(v.phase, WorkspacePhase::Failed);
}

#[test]
fn a_parent_segment_cannot_escape_the_root() {
    let v = validate_paths("/work", &["/work/../etc"]);
    assert_eq!(v.phase, WorkspacePhase::Failed);
    let v = validate_paths("/work", &["/work/a/../../etc"]);
    assert_eq!(v.phase, WorkspacePhase::Failed);
}

#[test]
fn a_relative_source_path_fails() {
    let v = validate_paths("/work", &["work/caliban"]);
    assert_eq!(v.phase, WorkspacePhase::Failed);
}

#[test]
fn two_sources_sharing_a_path_fail() {
    // The second clone is skipped by the `.git` guard, silently.
    let v = validate_paths("/work", &["/work/app", "/work/app/"]);
    assert_eq!(v.phase, WorkspacePhase::Failed);
    assert_eq!(
        v.message.as_deref(),
        Some("sources 's0' and 's1' share path '/work/app'")
    );
}

#[test]
fn resolve_picks_named_provider() {
    let spec = spec_with(
        vec![
            provider("planner", Some(("k", "v"))),
            provider("workers", None),
        ],
        Some("planner"),
    );
    let r = resolve_workspace(&spec, Some("workers")).unwrap();
    assert_eq!(r.provider.name, "workers");
    assert_eq!(r.sources.len(), 1);
}

#[test]
fn resolve_falls_back_to_default_provider() {
    let spec = spec_with(
        vec![provider("planner", None), provider("workers", None)],
        Some("workers"),
    );
    let r = resolve_workspace(&spec, None).unwrap();
    assert_eq!(r.provider.name, "workers");
}

#[test]
fn resolve_uses_sole_provider_when_no_default() {
    let spec = spec_with(vec![provider("only", None)], None);
    let r = resolve_workspace(&spec, None).unwrap();
    assert_eq!(r.provider.name, "only");
}

#[test]
fn resolve_ambiguous_without_default_errors() {
    let spec = spec_with(vec![provider("a", None), provider("b", None)], None);
    let err = resolve_workspace(&spec, None).unwrap_err();
    assert_eq!(
        err,
        "no providerRef and workspace has no defaultProvider among 2 providers"
    );
}

#[test]
fn resolve_dangling_provider_ref_errors() {
    let spec = spec_with(vec![provider("planner", None)], None);
    let err = resolve_workspace(&spec, Some("nope")).unwrap_err();
    assert_eq!(err, "providerRef 'nope' names no provider in the workspace");
}

fn message(v: WorkspaceValidation) -> String {
    v.message.unwrap()
}

fn validate_cidr(cidr: &str) -> Option<String> {
    let mut spec = spec_with(vec![provider("workers", None)], None);
    spec.egress = Some(egress(cidr, &[]));
    validate_workspace(&spec, "/work", |_, _| true).message
}

#[test]
fn a_policy_decides_whether_unattended_is_allowed() {
    let mut spec = spec_with(vec![provider("workers", None)], None);
    assert!(!resolve_workspace(&spec, None).unwrap().allows_unattended());
    spec.agent_policy = Some(AgentPolicy::default());
    assert!(!resolve_workspace(&spec, None).unwrap().allows_unattended());
    spec.agent_policy = Some(AgentPolicy {
        allow_unattended: true,
    });
    assert!(resolve_workspace(&spec, None).unwrap().allows_unattended());
}

#[test]
fn each_cidr_problem_says_what_it_is() {
    assert_eq!(
        validate_cidr("10.0.0.0").unwrap(),
        "egress cidr '10.0.0.0': missing a /prefix length"
    );
    assert_eq!(
        validate_cidr("example.com/32").unwrap(),
        "egress cidr 'example.com/32': not an IP address"
    );
    assert_eq!(
        validate_cidr("10.0.0.0/33").unwrap(),
        "egress cidr '10.0.0.0/33': prefix length out of range"
    );
    let mut spec = spec_with(vec![provider("workers", None)], None);
    spec.egress = Some(egress("10.0.0.0/8", &[443, 0, 70_000]));
    assert_eq!(
        message(validate_workspace(&spec, "/work", |_, _| true)),
        "egress cidr '10.0.0.0/8': port 0 is outside 1-65535"
    );
}

/// Textual addresses as the standard notations have them.
#[test]
fn addresses_are_those_of_the_standard_notation() {
    for a in ["0.0.0.0", "255.255.255.255"] {
        assert!(validate_cidr(&format!("{a}/0")).is_none(), "{a:?}");
        assert!(validate_cidr(&format!("{a}/32")).is_none(), "{a:?}");
        assert!(validate_cidr(&format!("{a}/33")).is_some(), "{a:?}");
    }
    let v6 = [
        "::", "1::", "::1", "1:2:3:4:5:6:7:8", "1:2:3:4:5:6:7::", "::2:3:4:5:6:7:8",
        "1::3:4:5:6:7:8", "FFFF::abcd", "::1.2.3.4", "1:2:3:4:5:6:1.2.3.4", "1:2:3:4:5::1.2.3.4",
        "::ffff:255.255.255.255", "0000:0000:0000:0000:0000:0000:0000:0000",
    ];
    for a in v6 {
        assert!(validate_cidr(&format!("{a}/0")).is_none(), "{a:?}");
        assert!(validate_cidr(&format!("{a}/128")).is_none(), "{a:?}");
        assert!(validate_cidr(&format!("{a}/129")).is_some(), "{a:?}");
    }
    let neither = [
        "256.0.0.0", "1.2.3", "1.2.3.4.5", "01.2.3.4", "1.2.3.04", "1..2.3", "1.2.3.", ".1.2.3",
        "+1.2.3.4", "1.2.3.-4", "1.2.3.1000", " 1.2.3.4", "", ":", ":::", "1:2:3:4:5:6:7",
        "1:2:3:4:5:6:7:8:9", "1:2:3:4::5:6:7:8", "1::2::3", "1:::2", "12345::", "g::",
        "1:2:3:4:5:6:7:1.2.3.4", "1:2:3:4:5:1.2.3.4", "1:2:3:4:5:6::1.2.3.4", "1.2.3.4::",
        "::1.2.3.4:5", "::1.2.3", "::01.2.3.4", "1.2.3.4:5", ":1:2:3:4:5:6:7", "1:2:3:4:5:6:7:",
        "fe80::1%eth0", "[::1]", "00000::",
    ];
    for a in neither {
        let m = validate_cidr(&format!("{a}/0")).unwrap();
        assert!(m.ends_with("not an IP address"), "{a:?}: {m}");
    }
}

#[test]
fn a_prefix_length_is_an_unsigned_number() {
    for prefix in ["", "+8", "08", "-1", " 8", "8 ", "8/", "0x8", "256", "+", "300", "000000008"] {
        let expected = prefix.parse::<u8>().is_ok_and(|p| p <= 32);
        assert_eq!(
            validate_cidr(&format!("10.0.0.0/{prefix}")).is_none(),
            expected,
            "{prefix:?}"
        );
    }
}

/// The components that the standard library's paths have.
#[test]
fn paths_are_compared_by_their_components() {
    let roots = ["/work", "/work/", "//work/.", "/", "", "work", "./work", "/work/..", ".", "/a/b"];
    let paths = [
        "/work/x", "/work", "/work/", "/work/.", "/work/./x", "//work//x//", "/x", "/", "//", "",
        "x", "./x", "/work/..", "/work/../x", "/work/..x", "/work/x..", "/workx/y", "/a/b/c",
        "/a/b", "/a/./b/./c/.", "/./work/x", "work/x", ".", "..", "/work/...",
    ];
    for root in roots {
        for path in paths {
            let p = Path::new(path);
            let expected = p.is_absolute()
                && !p.components().any(|c| c == Component::ParentDir)
                && p.strip_prefix(root)
                    .is_ok_and(|rest| rest.components().next().is_some());
            let v = validate_paths(root, &[path]);
            assert_eq!(v.phase == WorkspacePhase::Ready, expected, "{path:?} under {root:?}");
        }
    }
}

#[test]
fn a_shared_path_is_named_without_what_is_superfluous() {
    let v = validate_paths("/", &["/work/x/y", "/z", "//work/./x//y/."]);
    assert_eq!(
        message(v),
        "sources 's0' and 's2' share path '/work/x/y'"
    );
    // The root directory itself, where every absolute path is admitted.
    let v = validate_paths("", &["/", "//"]);
    assert_eq!(message(v), "sources 's0' and 's1' share path '/'");
}

#[test]
fn the_first_problem_wins() {
    let mut spec = spec_with(
        vec![provider("a", Some(("s", "k"))), provider("a", None)],
        Some("nope"),
    );
    spec.egress = Some(egress("bad", &[0]));
    spec.sources[0].path = "/elsewhere".into();
    let m = message(validate_workspace(&spec, "/work", |_, _| false));
    assert!(m.starts_with("source 'caliban'"), "{m}");
    spec.sources.clear();
    let m = message(validate_workspace(&spec, "/work", |_, _| false));
    assert_eq!(m, "egress cidr 'bad': missing a /prefix length");
    spec.egress = None;
    let m = message(validate_workspace(&spec, "/work", |_, _| false));
    assert_eq!(m, "duplicate provider name 'a'");
    spec.providers[1].name = "b".into();
    let m = message(validate_workspace(&spec, "/work", |_, _| false));
    assert_eq!(m, "defaultProvider 'nope' names no provider");
    spec.default_provider = Some("b".into());
    let m = message(validate_workspace(&spec, "/work", |_, _| false));
    assert_eq!(m, "provider 'a': secret 's' key 'k' not found");
    let v = validate_workspace(&spec, "/work", |_, _| true);
    assert_eq!(v.phase, WorkspacePhase::Ready);
}

#[test]
fn resolve_with_a_dangling_default_errors() {
    let spec = spec_with(vec![provider("a", None)], Some("nope"));
    assert_eq!(
        resolve_workspace(&spec, None).unwrap_err(),
        "defaultProvider 'nope' names no provider"
    );
    let none = spec_with(vec![], None);
    assert_eq!(
        resolve_workspace(&none, None).unwrap_err(),
        "no providerRef and workspace has no defaultProvider among 0 providers"
    );
}

/// What validating `spec` looks up, where every key but those of the Secret `missing` is there.
fn lookups(spec: &WorkspaceSpec) -> Vec<String> {
    let asked: RefCell<Vec<String>> = RefCell::new(vec![]);
    validate_workspace(spec, "/work", |s, k| {
        asked.borrow_mut().push(format!("{s}/{k}"));
        s != "missing"
    });
    asked.into_inner()
}

#[test]
fn credentials_are_looked_up_in_the_order_of_the_providers() {
    let spec = spec_with(
        vec![
            provider("a", Some(("z", "k1"))),
            provider("b", None),
            provider("c", Some(("y", "k2"))),
        ],
        None,
    );
    assert_eq!(lookups(&spec), vec!["z/k1", "y/k2"]);
}

#[test]
fn nothing_is_looked_up_after_a_missing_credential() {
    let spec = spec_with(
        vec![
            provider("a", Some(("s", "k"))),
            provider("b", Some(("missing", "k"))),
            provider("c", Some(("s", "other"))),
        ],
        None,
    );
    assert_eq!(lookups(&spec), vec!["s/k", "missing/k"]);
}

#[test]
fn nothing_is_looked_up_in_a_workspace_with_a_problem_of_its_own() {
    let good = spec_with(vec![provider("a", Some(("s", "k")))], None);
    assert_eq!(lookups(&good), vec!["s/k"]);
    let mut source = good.clone();
    source.sources[0].path = "/elsewhere".into();
    assert!(lookups(&source).is_empty());
    let mut rules = good.clone();
    rules.egress = Some(egress("bad", &[]));
    assert!(lookups(&rules).is_empty());
    let mut twice = good.clone();
    twice.providers.push(provider("a", None));
    assert!(lookups(&twice).is_empty());
    let mut dangling = good.clone();
    dangling.default_provider = Some("nope".into());
    assert!(lookups(&dangling).is_empty());
    assert!(lookups(&spec_with(vec![provider("a", None)], None)).is_empty());
}
