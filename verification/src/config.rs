//! Operator-level settings (image, ports, workspace defaults) and helpers for naming and owning
//! the child objects a reconcile creates.

use vstd::prelude::*;

use crate::crd::{CalibanTask, CalibanTaskView, API_VERSION, TASK_KIND};
use crate::objects::{OwnerReference, OwnerReferenceView};
use crate::string_map::StringMap;
use crate::text;
use crate::text::opt_str;

verus! {

/// Runtime configuration, sourced from the environment with neutral defaults.
#[derive(Clone, Debug)]
pub struct Settings {
    /// Container image for the caliband pod.
    pub caliband_image: String,
    /// TCP+TLS port caliband listens on inside the pod.
    pub caliband_port: i32,
    /// Base port caliband draws per-agent stream listeners from.
    pub agent_port_base: i32,
    /// Top of the per-agent stream port window the NetworkPolicy opens (inclusive).
    pub agent_port_end: i32,
    /// Workspace root mount path in the pod.
    pub workspace_root: String,
    /// Requested size of the workspace volume (e.g. `10Gi`).
    pub workspace_storage: String,
    /// Container image for the git-clone init container that populates the workspace.
    pub git_image: String,
    /// Name of the shared TLS serving-cert Secret (keys tls.crt/tls.key/ca.crt).
    pub session_tls_secret: String,
    /// Name of the shared bearer-token Secret.
    pub session_token_secret: String,
    /// Key within the token Secret.
    pub session_token_key: String,
    /// Name the session-plane serving cert is verified against.
    pub session_server_name: String,
    /// CPU request for the sandbox containers (e.g. `250m`). `None` omits it.
    pub caliband_cpu_request: Option<String>,
    /// Memory request for the sandbox containers (e.g. `512Mi`). `None` omits it.
    pub caliband_memory_request: Option<String>,
    /// CPU limit for the sandbox containers.
    pub caliband_cpu_limit: Option<String>,
    /// Memory limit for the sandbox containers.
    pub caliband_memory_limit: Option<String>,
    /// The cluster's DNS domain, used to build caliband's advertise host.
    pub cluster_domain: String,
    /// Labels a pod must carry to reach caliband. Empty admits every pod in the peer namespace.
    pub ingress_pod_selector: StringMap,
    /// Namespace allowed to reach caliband. `None` means the task's own.
    pub ingress_namespace: Option<String>,
    /// Problems found while reading the environment, reported by [`Settings::validate`].
    pub env_errors: Vec<String>,
}

/// What [`Settings`] holds.
#[verifier::ext_equal]
pub struct SettingsView {
    pub caliband_image: Seq<char>,
    pub caliband_port: i32,
    pub agent_port_base: i32,
    pub agent_port_end: i32,
    pub workspace_root: Seq<char>,
    pub workspace_storage: Seq<char>,
    pub git_image: Seq<char>,
    pub session_tls_secret: Seq<char>,
    pub session_token_secret: Seq<char>,
    pub session_token_key: Seq<char>,
    pub session_server_name: Seq<char>,
    pub caliband_cpu_request: Option<Seq<char>>,
    pub caliband_memory_request: Option<Seq<char>>,
    pub caliband_cpu_limit: Option<Seq<char>>,
    pub caliband_memory_limit: Option<Seq<char>>,
    pub cluster_domain: Seq<char>,
    pub ingress_pod_selector: Map<Seq<char>, Seq<char>>,
    pub ingress_namespace: Option<Seq<char>>,
    pub env_errors: Seq<Seq<char>>,
}

impl DeepView for Settings {
    type V = SettingsView;

    open spec fn deep_view(&self) -> SettingsView {
        SettingsView {
            caliband_image: self.caliband_image@,
            caliband_port: self.caliband_port,
            agent_port_base: self.agent_port_base,
            agent_port_end: self.agent_port_end,
            workspace_root: self.workspace_root@,
            workspace_storage: self.workspace_storage@,
            git_image: self.git_image@,
            session_tls_secret: self.session_tls_secret@,
            session_token_secret: self.session_token_secret@,
            session_token_key: self.session_token_key@,
            session_server_name: self.session_server_name@,
            caliband_cpu_request: self.caliband_cpu_request.deep_view(),
            caliband_memory_request: self.caliband_memory_request.deep_view(),
            caliband_cpu_limit: self.caliband_cpu_limit.deep_view(),
            caliband_memory_limit: self.caliband_memory_limit.deep_view(),
            cluster_domain: self.cluster_domain@,
            ingress_pod_selector: self.ingress_pod_selector.deep_view(),
            ingress_namespace: self.ingress_namespace.deep_view(),
            env_errors: self.env_errors.deep_view(),
        }
    }
}

/// Kubernetes' default cluster DNS domain.
pub const DEFAULT_CLUSTER_DOMAIN: &'static str = "cluster.local";

/// The longest name Kubernetes accepts for a Service.
pub const SERVICE_NAME_MAX: usize = 63;

// ---------------------------------------------------------------------------------------------
// Defaults and the environment
// ---------------------------------------------------------------------------------------------

impl SettingsView {
    /// The settings of an operator that nothing has been configured for.
    pub open spec fn defaults() -> SettingsView {
        SettingsView {
            caliband_image: "ghcr.io/caliban-ai/caliban:latest"@,
            caliband_port: 8443,
            agent_port_base: 7100,
            agent_port_end: 7999,
            workspace_root: "/work"@,
            workspace_storage: "10Gi"@,
            git_image: "alpine/git:latest"@,
            session_tls_secret: "caliban-session-plane-tls"@,
            session_token_secret: "caliban-session-plane-token"@,
            session_token_key: "token"@,
            session_server_name: "caliband"@,
            caliband_cpu_request: Some("250m"@),
            caliband_memory_request: Some("512Mi"@),
            caliband_cpu_limit: None,
            caliband_memory_limit: None,
            cluster_domain: DEFAULT_CLUSTER_DOMAIN@,
            ingress_pod_selector: Map::empty(),
            ingress_namespace: None,
            env_errors: Seq::empty(),
        }
    }

    /// The settings that the environment `env` gives.
    pub open spec fn from_env(env: Map<Seq<char>, Seq<char>>) -> SettingsView {
        let d = SettingsView::defaults();
        let selector = selector_of(text_var(env, "CALIBAN_INGRESS_POD_SELECTOR"@, Seq::empty()));
        SettingsView {
            caliband_image: text_var(env, "CALIBAND_IMAGE"@, d.caliband_image),
            caliband_port: port_var(env, "CALIBAND_PORT"@, d.caliband_port),
            agent_port_base: port_var(env, "CALIBAN_AGENT_PORT_BASE"@, d.agent_port_base),
            agent_port_end: port_var(env, "CALIBAN_AGENT_PORT_END"@, d.agent_port_end),
            workspace_root: text_var(env, "CALIBAN_WORKSPACE_ROOT"@, d.workspace_root),
            workspace_storage: text_var(env, "CALIBAN_WORKSPACE_STORAGE"@, d.workspace_storage),
            git_image: text_var(env, "CALIBAN_GIT_IMAGE"@, d.git_image),
            session_tls_secret: text_var(env, "CALIBAN_SESSION_TLS_SECRET"@, d.session_tls_secret),
            session_token_secret: text_var(
                env,
                "CALIBAN_SESSION_TOKEN_SECRET"@,
                d.session_token_secret,
            ),
            session_token_key: text_var(env, "CALIBAN_SESSION_TOKEN_KEY"@, d.session_token_key),
            session_server_name: text_var(
                env,
                "CALIBAN_SESSION_SERVER_NAME"@,
                d.session_server_name,
            ),
            caliband_cpu_request: quantity_of(
                var(env, "CALIBAND_CPU_REQUEST"@),
                d.caliband_cpu_request,
            ),
            caliband_memory_request: quantity_of(
                var(env, "CALIBAND_MEMORY_REQUEST"@),
                d.caliband_memory_request,
            ),
            caliband_cpu_limit: quantity_of(var(env, "CALIBAND_CPU_LIMIT"@), d.caliband_cpu_limit),
            caliband_memory_limit: quantity_of(
                var(env, "CALIBAND_MEMORY_LIMIT"@),
                d.caliband_memory_limit,
            ),
            cluster_domain: domain_of(var(env, "CALIBAN_CLUSTER_DOMAIN"@)),
            ingress_pod_selector: match selector {
                Ok(labels) => labels,
                Err(_) => Map::empty(),
            },
            ingress_namespace: namespace_of(var(env, "CALIBAN_INGRESS_NAMESPACE"@)),
            env_errors: match selector {
                Ok(_) => Seq::empty(),
                Err(e) => seq!["CALIBAN_INGRESS_POD_SELECTOR: "@ + e],
            },
        }
    }
}

/// The value of the variable `name`, if it is set.
pub open spec fn var(env: Map<Seq<char>, Seq<char>>, name: Seq<char>) -> Option<Seq<char>> {
    if env.contains_key(name) {
        Some(env[name])
    } else {
        None
    }
}

/// The value of the variable `name`, or `default`.
pub open spec fn text_var(
    env: Map<Seq<char>, Seq<char>>,
    name: Seq<char>,
    default: Seq<char>,
) -> Seq<char> {
    match var(env, name) {
        Some(v) => v,
        None => default,
    }
}

/// The number that the variable `name` spells, or `default` where it is unset or spells none.
pub open spec fn port_var(env: Map<Seq<char>, Seq<char>>, name: Seq<char>, default: i32) -> i32 {
    match var(env, name) {
        Some(v) => match text::signed_of(v) {
            Some(n) => if i32::MIN <= n <= i32::MAX {
                n as i32
            } else {
                default
            },
            None => default,
        },
        None => default,
    }
}

/// The namespace that a value names: blank names none.
pub open spec fn namespace_of(value: Option<Seq<char>>) -> Option<Seq<char>> {
    match value {
        Some(v) => if text::trim(v).len() > 0 {
            Some(text::trim(v))
        } else {
            None
        },
        None => None,
    }
}

impl Default for Settings {
    fn default() -> (r: Settings)
        ensures
            r.deep_view() == SettingsView::defaults(),
    {
        let env_errors: Vec<String> = Vec::new();
        assert(env_errors.deep_view() =~= Seq::empty());
        Settings {
            caliband_image: "ghcr.io/caliban-ai/caliban:latest".to_string(),
            caliband_port: 8443,
            agent_port_base: 7100,
            agent_port_end: 7999,
            workspace_root: "/work".to_string(),
            workspace_storage: "10Gi".to_string(),
            git_image: "alpine/git:latest".to_string(),
            session_tls_secret: "caliban-session-plane-tls".to_string(),
            session_token_secret: "caliban-session-plane-token".to_string(),
            session_token_key: "token".to_string(),
            session_server_name: "caliband".to_string(),
            caliband_cpu_request: Some("250m".to_string()),
            caliband_memory_request: Some("512Mi".to_string()),
            caliband_cpu_limit: None,
            caliband_memory_limit: None,
            cluster_domain: DEFAULT_CLUSTER_DOMAIN.to_string(),
            ingress_pod_selector: StringMap::new(),
            ingress_namespace: None,
            env_errors,
        }
    }
}

/// The value of the variable `name`, if it is set.
fn env_var(env: &StringMap, name: &str) -> (r: Option<String>)
    ensures
        r.deep_view() == var(env.deep_view(), name@),
{
    match env.get(name) {
        Some(v) => Some(v.clone()),
        None => None,
    }
}

/// The value of the variable `name`, or `default`.
fn env_text(env: &StringMap, name: &str, default: String) -> (r: String)
    ensures
        r@ == text_var(env.deep_view(), name@, default@),
{
    match env.get(name) {
        Some(v) => v.clone(),
        None => default,
    }
}

/// The number that the variable `name` spells, or `default`.
fn env_port(env: &StringMap, name: &str, default: i32) -> (r: i32)
    ensures
        r == port_var(env.deep_view(), name@, default),
{
    match env.get(name) {
        Some(v) => match text::parse_i32(v.as_str()) {
            Some(n) => n,
            None => default,
        },
        None => default,
    }
}

impl Settings {
    /// Reads the settings from the variables `env`, falling back to defaults. An empty resource
    /// value clears its default (see [`optional_quantity`]); a blank cluster domain keeps
    /// `cluster.local`; a malformed ingress selector is recorded in `env_errors`.
    pub fn from_env(env: &StringMap) -> (r: Settings)
        ensures
            r.deep_view() == SettingsView::from_env(env.deep_view()),
    {
        let d = Settings::default();
        let mut env_errors: Vec<String> = Vec::new();
        assert(env_errors.deep_view() =~= Seq::empty());
        let raw = env_text(env, "CALIBAN_INGRESS_POD_SELECTOR", String::new());
        let ingress_pod_selector = match parse_selector(raw.as_str()) {
            Ok(labels) => labels,
            Err(e) => {
                let message = "CALIBAN_INGRESS_POD_SELECTOR: ".to_string().concat(e.as_str());
                let ghost m = message@;
                env_errors.push(message);
                assert(env_errors.deep_view() =~= seq![m]);
                StringMap::new()
            },
        };
        let ingress_namespace = match env.get("CALIBAN_INGRESS_NAMESPACE") {
            Some(v) => {
                let t = text::trimmed(v.as_str());
                if !t.as_str().is_empty() {
                    Some(t)
                } else {
                    None
                }
            },
            None => None,
        };
        Settings {
            caliband_image: env_text(env, "CALIBAND_IMAGE", d.caliband_image),
            caliband_port: env_port(env, "CALIBAND_PORT", d.caliband_port),
            agent_port_base: env_port(env, "CALIBAN_AGENT_PORT_BASE", d.agent_port_base),
            agent_port_end: env_port(env, "CALIBAN_AGENT_PORT_END", d.agent_port_end),
            workspace_root: env_text(env, "CALIBAN_WORKSPACE_ROOT", d.workspace_root),
            workspace_storage: env_text(env, "CALIBAN_WORKSPACE_STORAGE", d.workspace_storage),
            git_image: env_text(env, "CALIBAN_GIT_IMAGE", d.git_image),
            session_tls_secret: env_text(env, "CALIBAN_SESSION_TLS_SECRET", d.session_tls_secret),
            session_token_secret: env_text(
                env,
                "CALIBAN_SESSION_TOKEN_SECRET",
                d.session_token_secret,
            ),
            session_token_key: env_text(env, "CALIBAN_SESSION_TOKEN_KEY", d.session_token_key),
            session_server_name: env_text(
                env,
                "CALIBAN_SESSION_SERVER_NAME",
                d.session_server_name,
            ),
            caliband_cpu_request: optional_quantity(
                env_var(env, "CALIBAND_CPU_REQUEST"),
                opt_str(&d.caliband_cpu_request),
            ),
            caliband_memory_request: optional_quantity(
                env_var(env, "CALIBAND_MEMORY_REQUEST"),
                opt_str(&d.caliband_memory_request),
            ),
            caliband_cpu_limit: optional_quantity(
                env_var(env, "CALIBAND_CPU_LIMIT"),
                opt_str(&d.caliband_cpu_limit),
            ),
            caliband_memory_limit: optional_quantity(
                env_var(env, "CALIBAND_MEMORY_LIMIT"),
                opt_str(&d.caliband_memory_limit),
            ),
            cluster_domain: cluster_domain(env_var(env, "CALIBAN_CLUSTER_DOMAIN")),
            ingress_pod_selector,
            ingress_namespace,
            env_errors,
        }
    }
}

// ---------------------------------------------------------------------------------------------
// Validation
// ---------------------------------------------------------------------------------------------

/// Whether `port` is a TCP port.
pub open spec fn is_port(port: i32) -> bool {
    1 <= port <= 65535
}

/// What is said of the variable `name` when it holds the port number `port`.
pub open spec fn bad_port(name: Seq<char>, port: i32) -> Seq<char> {
    name + " "@ + text::decimal_int(port as int) + " is outside 1-65535"@
}

/// What keeps the operator from starting with these settings, if anything does.
pub open spec fn settings_problem(s: SettingsView) -> Option<Seq<char>> {
    if s.env_errors.len() > 0 {
        Some(text::join(s.env_errors, "; "@))
    } else if !is_port(s.caliband_port) {
        Some(bad_port("CALIBAND_PORT"@, s.caliband_port))
    } else if !is_port(s.agent_port_base) {
        Some(bad_port("CALIBAN_AGENT_PORT_BASE"@, s.agent_port_base))
    } else if !is_port(s.agent_port_end) {
        Some(bad_port("CALIBAN_AGENT_PORT_END"@, s.agent_port_end))
    } else if s.agent_port_base > s.agent_port_end {
        Some(
            "agent port window is empty: CALIBAN_AGENT_PORT_BASE "@ + text::decimal_int(
                s.agent_port_base as int,
            ) + " > CALIBAN_AGENT_PORT_END "@ + text::decimal_int(s.agent_port_end as int),
        )
    } else if s.agent_port_base <= s.caliband_port <= s.agent_port_end {
        Some(
            "CALIBAND_PORT "@ + text::decimal_int(s.caliband_port as int)
                + " falls inside the agent port window "@ + text::decimal_int(
                s.agent_port_base as int,
            ) + "-"@ + text::decimal_int(s.agent_port_end as int),
        )
    } else {
        None
    }
}

/// What is said of the variable `name` when it holds the port number `port`.
fn bad_port_message(name: &str, port: i32) -> (r: String)
    ensures
        r@ == bad_port(name@, port),
{
    name.to_string().concat(" ").concat(text::decimal_of(port as i64).as_str()).concat(
        " is outside 1-65535",
    )
}

/// Whether `port` is a TCP port.
pub fn valid_port(port: i32) -> (r: bool)
    ensures
        r == is_port(port),
{
    1 <= port && port <= 65535
}

impl Settings {
    /// Rejects settings that would otherwise fail late: the ports the network policy is built from
    /// are checked once, at startup, naming the offending variable.
    pub fn validate(&self) -> (r: Result<(), String>)
        ensures
            match r {
                Ok(_) => settings_problem(self.deep_view()) is None,
                Err(e) => settings_problem(self.deep_view()) == Some(e@),
            },
    {
        if self.env_errors.len() > 0 {
            return Err(text::joined(&self.env_errors, "; "));
        }
        if !valid_port(self.caliband_port) {
            return Err(bad_port_message("CALIBAND_PORT", self.caliband_port));
        }
        if !valid_port(self.agent_port_base) {
            return Err(bad_port_message("CALIBAN_AGENT_PORT_BASE", self.agent_port_base));
        }
        if !valid_port(self.agent_port_end) {
            return Err(bad_port_message("CALIBAN_AGENT_PORT_END", self.agent_port_end));
        }
        let control = text::decimal_of(self.caliband_port as i64);
        let base = text::decimal_of(self.agent_port_base as i64);
        let end = text::decimal_of(self.agent_port_end as i64);
        if self.agent_port_base > self.agent_port_end {
            return Err(
                "agent port window is empty: CALIBAN_AGENT_PORT_BASE ".to_string().concat(
                    base.as_str(),
                ).concat(" > CALIBAN_AGENT_PORT_END ").concat(end.as_str()),
            );
        }
        if self.agent_port_base <= self.caliband_port && self.caliband_port <= self.agent_port_end {
            return Err(
                "CALIBAND_PORT ".to_string().concat(control.as_str()).concat(
                    " falls inside the agent port window ",
                ).concat(base.as_str()).concat("-").concat(end.as_str()),
            );
        }
        Ok(())
    }
}

// ---------------------------------------------------------------------------------------------
// Single values
// ---------------------------------------------------------------------------------------------

/// The quantity that a value gives: unset gives the default, blank gives none.
pub open spec fn quantity_of(
    value: Option<Seq<char>>,
    default: Option<Seq<char>>,
) -> Option<Seq<char>> {
    match value {
        None => default,
        Some(v) => if text::trim(v).len() == 0 {
            None
        } else {
            Some(text::trim(v))
        },
    }
}

/// Resolves an optional resource quantity from its environment value: unset gives `default`, a
/// value gives that value, and an explicitly empty value gives `None`, so that a default request
/// can be opted out of, not only overridden.
pub fn optional_quantity(value: Option<String>, default: Option<&str>) -> (r: Option<String>)
    ensures
        r.deep_view() == quantity_of(value.deep_view(), default.deep_view()),
{
    match value {
        None => match default {
            Some(d) => Some(d.to_string()),
            None => None,
        },
        Some(v) => {
            let t = text::trimmed(v.as_str());
            if t.as_str().is_empty() {
                None
            } else {
                Some(t)
            }
        },
    }
}

/// The DNS domain that a value gives: white space around it and root dots at its end do not
/// count, and nothing left means the default.
pub open spec fn domain_of(value: Option<Seq<char>>) -> Seq<char> {
    match value {
        None => DEFAULT_CLUSTER_DOMAIN@,
        Some(v) => {
            let t = text::trim_end_char(text::trim(v), '.');
            if t.len() == 0 {
                DEFAULT_CLUSTER_DOMAIN@
            } else {
                t
            }
        },
    }
}

/// Resolves the cluster DNS domain from its environment value: unset or blank keeps
/// `cluster.local`; surrounding white space and a trailing root dot are trimmed.
pub fn cluster_domain(value: Option<String>) -> (r: String)
    ensures
        r@ == domain_of(value.deep_view()),
{
    match value {
        None => DEFAULT_CLUSTER_DOMAIN.to_string(),
        Some(v) => {
            let t = text::without_trailing(text::trimmed(v.as_str()).as_str(), '.');
            if t.as_str().is_empty() {
                DEFAULT_CLUSTER_DOMAIN.to_string()
            } else {
                t
            }
        },
    }
}

/// Whether `entry`, with no white space around it, reads `key=value` with neither side blank.
pub open spec fn is_label(entry: Seq<char>) -> bool {
    let at = text::find(entry, '=');
    &&& at < entry.len()
    &&& text::trim(entry.take(at)).len() > 0
    &&& text::trim(entry.skip(at + 1)).len() > 0
}

/// The labels that a list of entries gives, or what is said of the first bad entry.
pub open spec fn labels_of(entries: Seq<Seq<char>>) -> Result<
    Map<Seq<char>, Seq<char>>,
    Seq<char>,
>
    decreases entries.len(),
{
    if entries.len() == 0 {
        Ok(Map::empty())
    } else {
        match labels_of(entries.drop_last()) {
            Err(e) => Err(e),
            Ok(labels) => {
                let entry = text::trim(entries.last());
                let at = text::find(entry, '=');
                if entry.len() == 0 {
                    Ok(labels)
                } else if is_label(entry) {
                    Ok(labels.insert(text::trim(entry.take(at)), text::trim(entry.skip(at + 1))))
                } else {
                    Err("bad selector entry '"@ + entry + "' (want key=value)"@)
                }
            },
        }
    }
}

/// The labels that a selector gives: entries are separated by commas, blank entries do not count.
pub open spec fn selector_of(raw: Seq<char>) -> Result<Map<Seq<char>, Seq<char>>, Seq<char>> {
    labels_of(text::split(raw, ','))
}

/// Once an entry is bad, what follows does not matter.
proof fn lemma_labels_error(entries: Seq<Seq<char>>, n: int)
    requires
        0 <= n <= entries.len(),
        labels_of(entries.take(n)) is Err,
    ensures
        labels_of(entries) == labels_of(entries.take(n)),
    decreases entries.len() - n,
{
    if n < entries.len() {
        assert(entries.take(n + 1).drop_last() =~= entries.take(n));
        lemma_labels_error(entries, n + 1);
    } else {
        assert(entries.take(n) =~= entries);
    }
}

/// Parses a `key=value,key2=value2` label selector. Blank yields an empty map (no narrowing). An
/// entry without `=`, or with an empty key or value, is an error rather than being skipped, so a
/// typo cannot silently widen or drop the ingress rule.
pub fn parse_selector(raw: &str) -> (r: Result<StringMap, String>)
    ensures
        match r {
            Ok(labels) => selector_of(raw@) == Ok::<Map<Seq<char>, Seq<char>>, Seq<char>>(
                labels.deep_view(),
            ),
            Err(e) => selector_of(raw@) == Err::<Map<Seq<char>, Seq<char>>, Seq<char>>(e@),
        },
{
    let entries = text::split_at_each(raw, ',');
    let ghost all = entries.deep_view();
    let mut labels = StringMap::new();
    let mut i: usize = 0;
    while i < entries.len()
        invariant
            i <= entries.len(),
            all == entries.deep_view(),
            all == text::split(raw@, ','),
            labels_of(all.take(i as int)) == Ok::<Map<Seq<char>, Seq<char>>, Seq<char>>(
                labels.deep_view(),
            ),
        decreases entries.len() - i,
    {
        let entry = text::trimmed(entries[i].as_str());
        assert(all.take(i + 1).drop_last() =~= all.take(i as int));
        assert(all.take(i + 1).last() == entries@[i as int]@);
        if !entry.as_str().is_empty() {
            let v = text::chars_of(entry.as_str());
            let at = text::find_char(&v, '=');
            if at < v.len() {
                let key = text::trimmed_range(&v, 0, at);
                let value = text::trimmed_range(&v, at + 1, v.len());
                assert(v@.subrange(0, at as int) =~= entry@.take(at as int));
                assert(v@.subrange(at + 1, v@.len() as int) =~= entry@.skip(at + 1));
                if !key.as_str().is_empty() && !value.as_str().is_empty() {
                    labels.insert(key, value);
                    i = i + 1;
                    continue ;
                }
            }
            proof {
                lemma_labels_error(all, i + 1);
            }
            return Err(
                "bad selector entry '".to_string().concat(entry.as_str()).concat(
                    "' (want key=value)",
                ),
            );
        }
        i = i + 1;
    }
    assert(all.take(i as int) =~= all);
    Ok(labels)
}

// ---------------------------------------------------------------------------------------------
// Names and ownership of the children
// ---------------------------------------------------------------------------------------------

impl CalibanTaskView {
    /// Name of the Sandbox backing the task.
    pub open spec fn sandbox_name(self) -> Seq<char> {
        self.metadata.name_any() + "-sbx"@
    }

    /// Name of the task's ServiceAccount.
    pub open spec fn sa_name(self) -> Seq<char> {
        self.metadata.name_any() + "-sa"@
    }

    /// Name of the task's NetworkPolicy.
    pub open spec fn netpol_name(self) -> Seq<char> {
        self.metadata.name_any() + "-netpol"@
    }

    /// Labels of every child of the task.
    pub open spec fn labels(self) -> Map<Seq<char>, Seq<char>> {
        map![
            "app.kubernetes.io/managed-by"@ => "caliban-operator"@,
            "caliban.caliban-ai.dev/task"@ => self.metadata.name_any(),
        ]
    }

    /// The reference by which the task owns its children.
    pub open spec fn owner_ref(self) -> OwnerReferenceView {
        OwnerReferenceView {
            api_version: API_VERSION@,
            kind: TASK_KIND@,
            name: self.metadata.name_any(),
            uid: match self.metadata.uid {
                Some(u) => u,
                None => Seq::empty(),
            },
            controller: Some(true),
            block_owner_deletion: Some(true),
        }
    }
}

/// Name of the Sandbox backing a task.
pub fn sandbox_name(t: &CalibanTask) -> (r: String)
    ensures
        r@ == t.deep_view().sandbox_name(),
{
    t.metadata.name_any().concat("-sbx")
}

/// Name of the task's dedicated ServiceAccount.
pub fn sa_name(t: &CalibanTask) -> (r: String)
    ensures
        r@ == t.deep_view().sa_name(),
{
    t.metadata.name_any().concat("-sa")
}

/// Name of the task's NetworkPolicy.
pub fn netpol_name(t: &CalibanTask) -> (r: String)
    ensures
        r@ == t.deep_view().netpol_name(),
{
    t.metadata.name_any().concat("-netpol")
}

/// What keeps a task of this name from being provisioned, if anything does: the name of its
/// Sandbox's Service takes more bytes than a Service name can have.
pub open spec fn name_problem(t: CalibanTaskView) -> Option<Seq<char>> {
    let name = t.metadata.name_any();
    if text::byte_len(t.sandbox_name()) > SERVICE_NAME_MAX {
        Some(
            "task name '"@ + name + "' is "@ + text::decimal(text::byte_len(name))
                + " characters; its Sandbox Service name '"@ + t.sandbox_name()
                + "' must be at most 63 characters (task names up to 59)"@,
        )
    } else {
        None
    }
}

/// The Service of a Sandbox has a name four bytes longer than the task's.
proof fn lemma_sandbox_name_len(t: CalibanTaskView)
    ensures
        text::byte_len(t.sandbox_name()) == text::byte_len(t.metadata.name_any()) + 4,
{
    text::lemma_byte_len_add(t.metadata.name_any(), "-sbx"@);
    reveal_strlit("-sbx");
    vstd::utf8::is_ascii_chars_encode_utf8("-sbx"@);
}

/// A task can be provisioned exactly if the name of its Sandbox's Service takes at most 63 bytes,
/// which is so exactly if its own name takes at most 59.
pub proof fn law_name_fits(t: CalibanTaskView)
    ensures
        name_problem(t) is None <==> text::byte_len(t.sandbox_name()) <= 63,
        name_problem(t) is None <==> text::byte_len(t.metadata.name_any()) <= 59,
{
    lemma_sandbox_name_len(t);
}

/// Why a task's name cannot be provisioned, if it cannot. agent-sandbox names the Sandbox's
/// headless Service after the Sandbox, and a Service name is at most 63 characters, so a longer
/// task name fails every apply. Task names are immutable, so this is permanent for the object.
pub fn task_name_problem(t: &CalibanTask) -> (r: Option<String>)
    ensures
        r.deep_view() == name_problem(t.deep_view()),
{
    let task = t.metadata.name_any();
    let service = sandbox_name(t);
    if service.as_str().as_bytes().len() <= SERVICE_NAME_MAX {
        return None;
    }
    let mut m = "task name '".to_string();
    m.append(task.as_str());
    m.append("' is ");
    text::push_decimal(&mut m, task.as_str().as_bytes().len() as u64);
    m.append(" characters; its Sandbox Service name '");
    m.append(service.as_str());
    m.append("' must be at most 63 characters (task names up to 59)");
    Some(m)
}

/// The in-cluster DNS name of the task's Sandbox Service.
pub open spec fn advertise_host(t: CalibanTaskView, s: SettingsView) -> Seq<char> {
    t.sandbox_name() + "."@ + t.metadata.namespace_or_empty() + ".svc."@ + s.cluster_domain
}

/// In-cluster DNS name caliband advertises for its per-agent stream endpoints: the name of the
/// Sandbox's headless Service. caliband would otherwise advertise its bind address, which cannot
/// be reached from outside the pod.
pub fn caliband_advertise_host(t: &CalibanTask, s: &Settings) -> (r: String)
    ensures
        r@ == advertise_host(t.deep_view(), s.deep_view()),
{
    sandbox_name(t).concat(".").concat(t.metadata.namespace_or_empty().as_str()).concat(
        ".svc.",
    ).concat(s.cluster_domain.as_str())
}

/// Labels stamped on every child object, keyed to the owning task.
pub fn common_labels(t: &CalibanTask) -> (r: StringMap)
    ensures
        r.deep_view() == t.deep_view().labels(),
{
    let mut m = StringMap::new();
    m.insert("app.kubernetes.io/managed-by".to_string(), "caliban-operator".to_string());
    m.insert("caliban.caliban-ai.dev/task".to_string(), t.metadata.name_any());
    m
}

/// A controller owner reference to the task, so that its children are deleted with it.
pub fn owner_ref(t: &CalibanTask) -> (r: OwnerReference)
    ensures
        r.deep_view() == t.deep_view().owner_ref(),
{
    OwnerReference {
        api_version: API_VERSION.to_string(),
        kind: TASK_KIND.to_string(),
        name: t.metadata.name_any(),
        uid: match &t.metadata.uid {
            Some(u) => u.clone(),
            None => String::new(),
        },
        controller: Some(true),
        block_owner_deletion: Some(true),
    }
}

// ---------------------------------------------------------------------------------------------
// Laws
// ---------------------------------------------------------------------------------------------

/// An operator that nothing is configured for can start.
pub proof fn law_defaults_are_valid()
    ensures
        settings_problem(SettingsView::defaults()) is None,
{
}

/// An environment without variables gives the defaults.
pub proof fn law_empty_environment_gives_the_defaults()
    ensures
        SettingsView::from_env(Map::empty()) == SettingsView::defaults(),
{
    let raw = Seq::<char>::empty();
    assert(text::split(raw, ',') =~= seq![raw]);
    assert(text::split(raw, ',').drop_last() =~= Seq::empty());
    assert(labels_of(Seq::empty()) is Ok);
    assert(text::split(raw, ',').last() == raw);
    assert(text::trim(raw) == raw);
}

/// Settings are accepted exactly if the environment could be read, the three ports are TCP ports,
/// the agent window is not empty, and the control port lies outside of it.
pub proof fn law_validity(s: SettingsView)
    ensures
        settings_problem(s) is None <==> {
            &&& s.env_errors.len() == 0
            &&& 1 <= s.caliband_port <= 65535
            &&& 1 <= s.agent_port_base <= s.agent_port_end <= 65535
            &&& (s.caliband_port < s.agent_port_base || s.agent_port_end < s.caliband_port)
        },
{
}

/// A selector is accepted exactly if each entry is blank or reads `key=value` with neither side
/// blank; the labels it then gives have no empty key and no empty value.
pub proof fn law_selector(raw: Seq<char>)
    ensures
        selector_of(raw) is Ok <==> (forall|i: int|
            0 <= i < text::split(raw, ',').len() ==> {
                let entry = text::trim(#[trigger] text::split(raw, ',')[i]);
                entry.len() == 0 || is_label(entry)
            }),
        selector_of(raw) matches Ok(labels) ==> forall|k: Seq<char>|
            #[trigger] labels.contains_key(k) ==> k.len() > 0 && labels[k].len() > 0,
{
    lemma_labels(text::split(raw, ','));
}

proof fn lemma_labels(entries: Seq<Seq<char>>)
    ensures
        labels_of(entries) is Ok <==> (forall|i: int|
            0 <= i < entries.len() ==> {
                let entry = text::trim(#[trigger] entries[i]);
                entry.len() == 0 || is_label(entry)
            }),
        labels_of(entries) matches Ok(labels) ==> forall|k: Seq<char>|
            #[trigger] labels.contains_key(k) ==> k.len() > 0 && labels[k].len() > 0,
    decreases entries.len(),
{
    if entries.len() > 0 {
        let init = entries.drop_last();
        lemma_labels(init);
        assert(entries[entries.len() - 1] == entries.last());
        assert forall|i: int| 0 <= i < init.len() implies #[trigger] init[i] == entries[i] by {}
        if labels_of(init) is Err {
            let i = choose|i: int|
                0 <= i < init.len() && !({
                    let entry = text::trim(#[trigger] init[i]);
                    entry.len() == 0 || is_label(entry)
                });
            assert(entries[i] == init[i]);
        } else {
            assert forall|i: int| 0 <= i < init.len() implies {
                let entry = text::trim(#[trigger] entries[i]);
                entry.len() == 0 || is_label(entry)
            } by {
                assert(entries[i] == init[i]);
            }
        }
    }
}

/// A bad selector is never silently dropped: settings read from an environment that holds one are
/// rejected, and no others are rejected for their environment.
pub proof fn law_bad_selector_is_reported(env: Map<Seq<char>, Seq<char>>)
    ensures
        SettingsView::from_env(env).env_errors.len() > 0 <==> selector_of(
            text_var(env, "CALIBAN_INGRESS_POD_SELECTOR"@, Seq::empty()),
        ) is Err,
        selector_of(text_var(env, "CALIBAN_INGRESS_POD_SELECTOR"@, Seq::empty())) is Err
            ==> settings_problem(SettingsView::from_env(env)) is Some,
{
}

/// Children of one task have three different names, and equal names mean equal task names.
pub proof fn law_child_names(t: CalibanTaskView, u: CalibanTaskView)
    ensures
        t.sandbox_name() != t.sa_name(),
        t.sandbox_name() != t.netpol_name(),
        t.sa_name() != t.netpol_name(),
        t.sandbox_name() == u.sandbox_name() ==> t.metadata.name_any() == u.metadata.name_any(),
        t.sa_name() == u.sa_name() ==> t.metadata.name_any() == u.metadata.name_any(),
        t.netpol_name() == u.netpol_name() ==> t.metadata.name_any() == u.metadata.name_any(),
{
    reveal_strlit("-sbx");
    reveal_strlit("-sa");
    reveal_strlit("-netpol");
    let n = t.metadata.name_any();
    let m = u.metadata.name_any();
    assert(t.sandbox_name().last() == 'x');
    assert(t.sa_name().last() == 'a');
    assert(t.netpol_name().last() == 'l');
    assert(n =~= t.sandbox_name().take(t.sandbox_name().len() - 4));
    assert(m =~= u.sandbox_name().take(u.sandbox_name().len() - 4));
    assert(n =~= t.sa_name().take(t.sa_name().len() - 3));
    assert(m =~= u.sa_name().take(u.sa_name().len() - 3));
    assert(n =~= t.netpol_name().take(t.netpol_name().len() - 7));
    assert(m =~= u.netpol_name().take(u.netpol_name().len() - 7));
}

/// Each text among the settings is the value of its own variable, as it stands, or else its default.
pub proof fn law_text_settings(env: Map<Seq<char>, Seq<char>>)
    ensures
        ({
            let s = SettingsView::from_env(env);
            &&& s.caliband_image == (if env.contains_key("CALIBAND_IMAGE"@) {
                env["CALIBAND_IMAGE"@]
            } else {
                "ghcr.io/caliban-ai/caliban:latest"@
            })
            &&& s.workspace_root == (if env.contains_key("CALIBAN_WORKSPACE_ROOT"@) {
                env["CALIBAN_WORKSPACE_ROOT"@]
            } else {
                "/work"@
            })
            &&& s.workspace_storage == (if env.contains_key("CALIBAN_WORKSPACE_STORAGE"@) {
                env["CALIBAN_WORKSPACE_STORAGE"@]
            } else {
                "10Gi"@
            })
            &&& s.git_image == (if env.contains_key("CALIBAN_GIT_IMAGE"@) {
                env["CALIBAN_GIT_IMAGE"@]
            } else {
                "alpine/git:latest"@
            })
            &&& s.session_tls_secret == (if env.contains_key("CALIBAN_SESSION_TLS_SECRET"@) {
                env["CALIBAN_SESSION_TLS_SECRET"@]
            } else {
                "caliban-session-plane-tls"@
            })
            &&& s.session_token_secret == (if env.contains_key("CALIBAN_SESSION_TOKEN_SECRET"@) {
                env["CALIBAN_SESSION_TOKEN_SECRET"@]
            } else {
                "caliban-session-plane-token"@
            })
            &&& s.session_token_key == (if env.contains_key("CALIBAN_SESSION_TOKEN_KEY"@) {
                env["CALIBAN_SESSION_TOKEN_KEY"@]
            } else {
                "token"@
            })
            &&& s.session_server_name == (if env.contains_key("CALIBAN_SESSION_SERVER_NAME"@) {
                env["CALIBAN_SESSION_SERVER_NAME"@]
            } else {
                "caliband"@
            })
        }),
{
}

/// Whether a text spells a number that a port setting can hold.
pub open spec fn is_number(x: Seq<char>) -> bool {
    text::signed_of(x) matches Some(n) && i32::MIN <= n <= i32::MAX
}

/// Each port is the number that its own variable spells, or else its default.
pub proof fn law_port_settings(env: Map<Seq<char>, Seq<char>>, n: i32)
    ensures
        ({
            let s = SettingsView::from_env(env);
            &&& !env.contains_key("CALIBAND_PORT"@) ==> s.caliband_port == 8443
            &&& env.contains_key("CALIBAND_PORT"@) && env["CALIBAND_PORT"@] == text::decimal_int(n as int) ==> s.caliband_port == n
            &&& env.contains_key("CALIBAND_PORT"@) && !is_number(env["CALIBAND_PORT"@]) ==> s.caliband_port == 8443
            &&& !env.contains_key("CALIBAN_AGENT_PORT_BASE"@) ==> s.agent_port_base == 7100
            &&& env.contains_key("CALIBAN_AGENT_PORT_BASE"@) && env["CALIBAN_AGENT_PORT_BASE"@] == text::decimal_int(n as int) ==> s.agent_port_base == n
            &&& env.contains_key("CALIBAN_AGENT_PORT_BASE"@) && !is_number(env["CALIBAN_AGENT_PORT_BASE"@]) ==> s.agent_port_base == 7100
            &&& !env.contains_key("CALIBAN_AGENT_PORT_END"@) ==> s.agent_port_end == 7999
            &&& env.contains_key("CALIBAN_AGENT_PORT_END"@) && env["CALIBAN_AGENT_PORT_END"@] == text::decimal_int(n as int) ==> s.agent_port_end == n
            &&& env.contains_key("CALIBAN_AGENT_PORT_END"@) && !is_number(env["CALIBAN_AGENT_PORT_END"@]) ==> s.agent_port_end == 7999
        }),
{
    if n < 0 {
        text::law_numbers_are_read_back((-(n as int)) as nat, Seq::empty(), 0);
    } else {
        text::law_numbers_are_read_back(n as nat, Seq::empty(), 0);
    }
}

/// Each quantity is the value of its own variable without white space around it; a blank one means
/// none, and only where the variable is unset does the default stand.
pub proof fn law_quantity_settings(env: Map<Seq<char>, Seq<char>>)
    ensures
        ({
            let s = SettingsView::from_env(env);
            &&& s.caliband_cpu_request == (if !env.contains_key("CALIBAND_CPU_REQUEST"@) {
                Some("250m"@)
            } else if text::trim(env["CALIBAND_CPU_REQUEST"@]).len() == 0 {
                None
            } else {
                Some(text::trim(env["CALIBAND_CPU_REQUEST"@]))
            })
            &&& s.caliband_memory_request == (if !env.contains_key("CALIBAND_MEMORY_REQUEST"@) {
                Some("512Mi"@)
            } else if text::trim(env["CALIBAND_MEMORY_REQUEST"@]).len() == 0 {
                None
            } else {
                Some(text::trim(env["CALIBAND_MEMORY_REQUEST"@]))
            })
            &&& s.caliband_cpu_limit == (if !env.contains_key("CALIBAND_CPU_LIMIT"@) {
                None
            } else if text::trim(env["CALIBAND_CPU_LIMIT"@]).len() == 0 {
                None
            } else {
                Some(text::trim(env["CALIBAND_CPU_LIMIT"@]))
            })
            &&& s.caliband_memory_limit == (if !env.contains_key("CALIBAND_MEMORY_LIMIT"@) {
                None
            } else if text::trim(env["CALIBAND_MEMORY_LIMIT"@]).len() == 0 {
                None
            } else {
                Some(text::trim(env["CALIBAND_MEMORY_LIMIT"@]))
            })
        }),
{
}

/// The domain is what its variable gives without white space around it and without dots behind it,
/// or else `cluster.local`; the namespace is what its variable gives without white space around it,
/// if anything; the selector is what its variable gives, and a bad one is recorded and admits no
/// less than none.
pub proof fn law_network_settings(env: Map<Seq<char>, Seq<char>>)
    ensures
        ({
            let s = SettingsView::from_env(env);
            let d = "CALIBAN_CLUSTER_DOMAIN"@;
            let ns = "CALIBAN_INGRESS_NAMESPACE"@;
            let sel = "CALIBAN_INGRESS_POD_SELECTOR"@;
            let domain = text::trim_end_char(text::trim(env[d]), '.');
            let raw = if env.contains_key(sel) {
                env[sel]
            } else {
                Seq::empty()
            };
            &&& s.cluster_domain == (if env.contains_key(d) && domain.len() > 0 {
                domain
            } else {
                "cluster.local"@
            })
            &&& s.ingress_namespace == (if env.contains_key(ns) && text::trim(env[ns]).len() > 0 {
                Some(text::trim(env[ns]))
            } else {
                None
            })
            &&& match selector_of(raw) {
                Ok(labels) => s.ingress_pod_selector == labels && s.env_errors.len() == 0,
                Err(e) => {
                    &&& s.ingress_pod_selector == Map::<Seq<char>, Seq<char>>::empty()
                    &&& s.env_errors.len() == 1
                    &&& s.env_errors[0] == "CALIBAN_INGRESS_POD_SELECTOR: "@ + e
                },
            }
        }),
{
}

/// Texts without white space at either end are not trimmed.
proof fn lemma_trimmed(s: Seq<char>)
    ensures
        s.len() > 0 && !text::is_white_space(s[0]) && !text::is_white_space(s.last()) ==> text::trim(
            s,
        ) == s,
        s.len() > 0 && !text::is_white_space(s[0]) ==> text::trim(s).len() > 0,
        s.len() > 0 && !text::is_white_space(s.last()) ==> text::trim(s).len() > 0,
{
    let (i, j) = text::law_trim(s);
    if s.len() > 0 && !text::is_white_space(s[0]) {
        assert(i == 0) by {
            if i > 0 {
                assert(text::is_white_space(s[0]));
            }
        }
        if j == 0 {
            assert(text::is_white_space(s[0]));
        }
    }
    if s.len() > 0 && !text::is_white_space(s.last()) {
        assert(j == s.len()) by {
            if j < s.len() {
                assert(text::is_white_space(s[s.len() - 1]));
            }
        }
        if i == s.len() {
            assert(text::is_white_space(s[s.len() - 1]));
        }
        if i == 0 {
            assert(s.subrange(0, s.len() as int) =~= s);
        }
    }
}

/// One more entry behind a comma is one more piece.
proof fn lemma_one_more_entry(raw: Seq<char>, x: Seq<char>)
    requires
        !x.contains(','),
    ensures
        text::split(raw + ","@ + x, ',') == text::split(raw, ',').push(x),
        text::split(raw, ',').push(x).drop_last() == text::split(raw, ','),
{
    reveal_strlit(",");
    let head = raw + ","@;
    text::lemma_split(raw, ',');
    assert(head.drop_last() =~= raw);
    text::lemma_split_behind(head, x, ',');
    let p = text::split(raw, ',');
    assert(text::split(head, ',').drop_last() =~= p);
    assert(Seq::<char>::empty() + x =~= x);
    assert(p.push(x).drop_last() =~= p);
}

/// A selector grows entry by entry: one that reads `key=value` adds that label, without the white
/// space around either side, in place of one that the key had before; a blank one adds nothing; one
/// that does not read so is an error that names it, unless there was an error before.
pub proof fn law_selector_entries(raw: Seq<char>, k: Seq<char>, v: Seq<char>, x: Seq<char>)
    requires
        !k.contains(',') && !v.contains(',') && !x.contains(','),
        k.len() > 0 && !text::is_white_space(k[0]) && !k.contains('='),
        v.len() > 0 && !text::is_white_space(v.last()),
    ensures
        selector_of(Seq::empty()) == Ok::<Map<Seq<char>, Seq<char>>, Seq<char>>(Map::empty()),
        selector_of(raw) matches Ok(m) ==> {
            &&& selector_of(raw + ","@ + (k + "="@ + v)) == Ok::<
                Map<Seq<char>, Seq<char>>,
                Seq<char>,
            >(m.insert(text::trim(k), text::trim(v)))
            &&& text::trim(x).len() == 0 ==> selector_of(raw + ","@ + x) == selector_of(raw)
            &&& text::trim(x).len() > 0 && !text::trim(x).contains('=') ==> selector_of(
                raw + ","@ + x,
            ) == Err::<Map<Seq<char>, Seq<char>>, Seq<char>>(
                "bad selector entry '"@ + text::trim(x) + "' (want key=value)"@,
            )
        },
        selector_of(raw) is Err ==> selector_of(raw + ","@ + x) == selector_of(raw),
{
    law_empty_environment_gives_the_defaults();
    let none = Seq::<char>::empty();
    assert(text::split(none, ',') =~= seq![none]);
    assert(text::split(none, ',').drop_last() =~= Seq::empty());
    assert(text::split(none, ',').last() == none);
    assert(text::trim(none) == none);
    reveal_strlit("=");
    let entry = k + "="@ + v;
    let n = k.len() as int;
    assert forall|i: int| 0 <= i < entry.len() implies entry[i] != ',' by {
        if i < n {
            assert(k.contains(k[i]));
        } else if i > n {
            assert(entry[i] == v[i - n - 1]);
            assert(v.contains(v[i - n - 1]));
        }
    }
    assert(!entry.contains(','));
    lemma_one_more_entry(raw, entry);
    lemma_one_more_entry(raw, x);
    assert(entry[0] == k[0] && entry.last() == v.last());
    lemma_trimmed(entry);
    lemma_trimmed(k);
    lemma_trimmed(v);
    assert forall|i: int| 0 <= i < n implies entry[i] != '=' by {
        assert(k.contains(k[i]));
    }
    text::lemma_find_unique(entry, '=', n);
    assert(entry.take(n) =~= k);
    assert(entry.skip(n + 1) =~= v);
    let t = text::trim(x);
    if !t.contains('=') {
        assert forall|i: int| 0 <= i < t.len() implies t[i] != '=' by {
            assert(t.contains(t[i]));
        }
        text::lemma_find_unique(t, '=', t.len() as int);
    }
}

/// What keeps the operator from starting is said of the first thing wrong, in this order, naming
/// the variable and its value: the environment, each port by itself, and then the window.
pub proof fn law_bad_settings_are_named(s: SettingsView)
    ensures
        ({
            let p = settings_problem(s);
            let text_of = |n: i32| text::decimal_int(n as int);
            let outside = |n: i32| n < 1 || n > 65535;
            let far = " is outside 1-65535"@;
            if s.env_errors.len() > 0 {
                p == Some(text::join(s.env_errors, "; "@))
            } else if outside(s.caliband_port) {
                p == Some("CALIBAND_PORT"@ + " "@ + text_of(s.caliband_port) + far)
            } else if outside(s.agent_port_base) {
                p == Some("CALIBAN_AGENT_PORT_BASE"@ + " "@ + text_of(s.agent_port_base) + far)
            } else if outside(s.agent_port_end) {
                p == Some("CALIBAN_AGENT_PORT_END"@ + " "@ + text_of(s.agent_port_end) + far)
            } else if s.agent_port_end < s.agent_port_base {
                p == Some(
                    "agent port window is empty: CALIBAN_AGENT_PORT_BASE "@ + text_of(
                        s.agent_port_base,
                    ) + " > CALIBAN_AGENT_PORT_END "@ + text_of(s.agent_port_end),
                )
            } else if !(s.caliband_port < s.agent_port_base) && !(s.agent_port_end
                < s.caliband_port) {
                p == Some(
                    "CALIBAND_PORT "@ + text_of(s.caliband_port)
                        + " falls inside the agent port window "@ + text_of(s.agent_port_base)
                        + "-"@ + text_of(s.agent_port_end),
                )
            } else {
                p is None
            }
        }),
{
}

/// A quantity or a domain that is given is taken without what surrounds it; a quantity given as
/// blank is none, even where there is a default, and a domain given as blank is the default.
pub proof fn law_single_values(v: Seq<char>, default: Option<Seq<char>>)
    ensures
        quantity_of(None, default) == default,
        text::trim(v).len() == 0 ==> quantity_of(Some(v), default) is None,
        text::trim(v).len() > 0 ==> quantity_of(Some(v), default) == Some(text::trim(v)),
        domain_of(None) == "cluster.local"@,
        domain_of(Some(v)) == (if text::trim_end_char(text::trim(v), '.').len() == 0 {
            "cluster.local"@
        } else {
            text::trim_end_char(text::trim(v), '.')
        }),
{
}

/// The children are called after the task. A task whose name is too long is told how long it is,
/// and what its Service would be called.
pub proof fn law_names_of_children(t: CalibanTaskView)
    ensures
        t.sandbox_name() == t.metadata.name_any() + "-sbx"@,
        t.sa_name() == t.metadata.name_any() + "-sa"@,
        t.netpol_name() == t.metadata.name_any() + "-netpol"@,
        text::byte_len(t.metadata.name_any()) > 59 ==> name_problem(t) == Some(
            "task name '"@ + t.metadata.name_any() + "' is "@ + text::decimal(
                text::byte_len(t.metadata.name_any()),
            ) + " characters; its Sandbox Service name '"@ + t.metadata.name_any() + "-sbx"@
                + "' must be at most 63 characters (task names up to 59)"@,
        ),
{
    lemma_sandbox_name_len(t);
    let name = t.metadata.name_any();
    if text::byte_len(name) > 59 {
        let head = "task name '"@ + name + "' is "@ + text::decimal(text::byte_len(name))
            + " characters; its Sandbox Service name '"@;
        assert(head + (name + "-sbx"@) =~= head + name + "-sbx"@);
    }
}

/// caliband is advertised under the DNS name of the Sandbox's Service: the Sandbox, the task's
/// namespace, `svc`, and the cluster's domain, with dots between them.
pub proof fn law_advertised_host(t: CalibanTaskView, s: SettingsView, ns: Seq<char>)
    requires
        t.metadata.namespace == Some(ns),
    ensures
        advertise_host(t, s) == t.metadata.name_any() + "-sbx"@ + "."@ + ns + ".svc."@
            + s.cluster_domain,
{
}

} // verus!
