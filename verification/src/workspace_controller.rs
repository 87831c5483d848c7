//! The `Workspace` controller: validates each `Workspace` and derives its status. It provisions
//! nothing.

use vstd::prelude::*;

use crate::json;
use crate::json::JsonView;
use crate::objects::{Secret, SecretView};
use crate::order;
use crate::text;
use crate::wire;
use crate::workspace;
use crate::workspace::{
    validate_workspace, ProviderView, Workspace, WorkspacePhase, WorkspaceSpec, WorkspaceSpecView,
    WorkspaceStatus, WorkspaceStatusView, WorkspaceValidation, WorkspaceValidationView,
    WorkspaceView,
};

verus! {

/// Seconds until a reconcile that failed is tried again.
pub const ERROR_REQUEUE: u64 = 30;

// ---------------------------------------------------------------------------------------------
// The status
// ---------------------------------------------------------------------------------------------

/// The status that a validation gives a workspace: whatever the operator does not derive stays.
pub open spec fn next_status(ws: WorkspaceView, v: WorkspaceValidationView) -> WorkspaceStatusView {
    WorkspaceStatusView {
        phase: v.phase,
        conditions: match ws.status {
            Some(cur) => cur.conditions,
            None => Seq::empty(),
        },
        observed_generation: ws.metadata.generation,
        message: v.message,
    }
}

/// The status to write after a validation, if it differs from the observed one.
pub open spec fn derived_status(ws: WorkspaceView, v: WorkspaceValidationView) -> Option<
    WorkspaceStatusView,
> {
    match ws.status {
        Some(cur) => if cur.phase == v.phase && cur.message == v.message && cur.observed_generation
            == ws.metadata.generation {
            None
        } else {
            Some(next_status(ws, v))
        },
        None => Some(next_status(ws, v)),
    }
}

/// Whether two optional numbers are the same.
fn same_number(a: Option<i64>, b: Option<i64>) -> (r: bool)
    ensures
        r == (a == b),
{
    match (a, b) {
        (Some(x), Some(y)) => x == y,
        (None, None) => true,
        _ => false,
    }
}

/// Derives the new `WorkspaceStatus` from a validation result. Returns `Some` only when it differs
/// from the observed status, so that nothing is written without need.
pub fn derive_workspace_status(ws: &Workspace, v: WorkspaceValidation) -> (r: Option<
    WorkspaceStatus,
>)
    ensures
        r.deep_view() == derived_status(ws.deep_view(), v.deep_view()),
{
    let mut next = match &ws.status {
        Some(cur) => {
            if cur.phase == v.phase && text::same_opt(&cur.message, &v.message) && same_number(
                cur.observed_generation,
                ws.metadata.generation,
            ) {
                return None;
            }
            cur.clone()
        },
        None => WorkspaceStatus::default(),
    };
    next.phase = v.phase;
    next.message = v.message;
    next.observed_generation = ws.metadata.generation;
    Some(next)
}

/// The merge patch that writes a workspace's status.
pub open spec fn status_patch_of(status: WorkspaceStatusView) -> JsonView {
    JsonView::Object(map!["status"@ => wire::workspace_status_of(status)])
}

/// The merge patch that writes a workspace's status.
pub fn status_patch(status: &WorkspaceStatus) -> (r: serde_json::Value)
    ensures
        json::contents(r) == status_patch_of(status.deep_view()),
{
    let mut m = json::empty();
    json::put(&mut m, "status", wire::workspace_status_json(status));
    json::object(m)
}

/// Seconds until a workspace in this phase is looked at again.
pub open spec fn requeue_of(phase: WorkspacePhase) -> u64 {
    match phase {
        WorkspacePhase::Ready => 300,
        WorkspacePhase::Failed => 15,
        WorkspacePhase::Pending => 15,
    }
}

/// How soon to re-check a workspace, in seconds. The controller deliberately does not watch
/// Secrets, so recovery from a missing credential rides this requeue: a workspace that isn't
/// `Ready` is re-checked quickly, and a `Ready` one keeps a slow safety-net interval.
pub fn requeue_after(phase: WorkspacePhase) -> (r: u64)
    ensures
        r == requeue_of(phase),
{
    match phase {
        WorkspacePhase::Ready => 300,
        WorkspacePhase::Failed => 15,
        WorkspacePhase::Pending => 15,
    }
}

// ---------------------------------------------------------------------------------------------
// The Secrets
// ---------------------------------------------------------------------------------------------

/// Whether one of the first `n` providers refers to the Secret `name`.
pub open spec fn refers_to(providers: Seq<ProviderView>, n: int, name: Seq<char>) -> bool {
    exists|i: int|
        0 <= i < n && (#[trigger] providers[i]).credentials_ref is Some
            && providers[i].credentials_ref->0.secret_name == name
}

/// The distinct Secret names a workspace's providers reference, in order. Providers often share
/// one Secret under different keys; each Secret is fetched once rather than once per provider.
pub fn credential_secret_names(spec: &WorkspaceSpec) -> (r: Vec<String>)
    ensures
        order::ascending(r.deep_view()),
        forall|name: Seq<char>| #[trigger]
            r.deep_view().contains(name) <==> refers_to(
                spec.deep_view().providers,
                spec.deep_view().providers.len() as int,
                name,
            ),
{
    let ghost all = spec.providers.deep_view();
    let mut r: Vec<String> = Vec::new();
    assert(r.deep_view() =~= Seq::empty());
    let mut i: usize = 0;
    while i < spec.providers.len()
        invariant
            i <= spec.providers.len(),
            all == spec.providers.deep_view(),
            order::ascending(r.deep_view()),
            forall|name: Seq<char>| #[trigger]
                r.deep_view().contains(name) <==> refers_to(all, i as int, name),
        decreases spec.providers.len() - i,
    {
        let ghost before = r.deep_view();
        let p = &spec.providers[i];
        assert(all[i as int] == p.deep_view());
        if let Some(c) = &p.credentials_ref {
            order::insert_ascending(&mut r, c.secret_name.as_str());
        }
        assert forall|name: Seq<char>| #[trigger]
            r.deep_view().contains(name) <==> refers_to(all, i + 1, name) by {
            assert(before.contains(name) <==> refers_to(all, i as int, name));
            if refers_to(all, i + 1, name) && !refers_to(all, i as int, name) {
                assert(all[i as int].credentials_ref is Some);
            }
            if refers_to(all, i as int, name) {
                let k = choose|k: int|
                    0 <= k < i && (#[trigger] all[k]).credentials_ref is Some
                        && all[k].credentials_ref->0.secret_name == name;
                assert(all[k].credentials_ref is Some);
            }
        }
        i = i + 1;
    }
    r
}

/// A Secret that was fetched, with the name it was fetched by.
#[derive(Clone, Debug)]
pub struct FetchedSecret {
    /// The name.
    pub name: String,
    /// The Secret.
    pub secret: Secret,
}

/// What a [`FetchedSecret`] holds.
#[verifier::ext_equal]
pub struct FetchedSecretView {
    pub name: Seq<char>,
    pub secret: SecretView,
}

impl DeepView for FetchedSecret {
    type V = FetchedSecretView;

    open spec fn deep_view(&self) -> FetchedSecretView {
        FetchedSecretView { name: self.name@, secret: self.secret.deep_view() }
    }
}

/// Whether a fetched Secret of that name has the key.
pub open spec fn is_present(
    fetched: Seq<FetchedSecretView>,
    name: Seq<char>,
    key: Seq<char>,
) -> bool {
    exists|i: int|
        0 <= i < fetched.len() && (#[trigger] fetched[i]).name == name && fetched[i].secret.has_key(
            key,
        )
}

/// Whether a fetched Secret of that name has the key.
fn present_among(fetched: &Vec<FetchedSecret>, name: &str, key: &str) -> (r: bool)
    ensures
        r == is_present(fetched.deep_view(), name@, key@),
{
    let ghost all = fetched.deep_view();
    let mut i: usize = 0;
    while i < fetched.len()
        invariant
            i <= fetched.len(),
            all == fetched.deep_view(),
            forall|k: int|
                0 <= k < i ==> !((#[trigger] all[k]).name == name@ && all[k].secret.has_key(key@)),
        decreases fetched.len() - i,
    {
        let f = &fetched[i];
        assert(all[i as int] == f.deep_view());
        if text::same(f.name.as_str(), name) && f.secret.has_key(key) {
            assert(all[i as int].name == name@);
            return true;
        }
        i = i + 1;
    }
    false
}

// ---------------------------------------------------------------------------------------------
// The reconcile
// ---------------------------------------------------------------------------------------------

/// What a reconcile of a workspace comes to.
#[derive(Clone, Debug)]
pub struct WorkspaceOutcome {
    /// The phase that validation gave.
    pub phase: WorkspacePhase,
    /// The status to write, if it differs from the observed one.
    pub status: Option<WorkspaceStatus>,
    /// Seconds until the workspace is looked at again.
    pub requeue: u64,
}

/// Which keys of which Secrets there are, by what was fetched.
pub open spec fn lookup(fetched: Seq<FetchedSecretView>) -> spec_fn(Seq<char>, Seq<char>) -> bool {
    |name: Seq<char>, key: Seq<char>| is_present(fetched, name, key)
}

/// Validates a workspace against the Secrets that were fetched for it, and decides what to write
/// and when to look again.
pub fn reconcile_workspace(
    ws: &Workspace,
    workspace_root: &str,
    fetched: &Vec<FetchedSecret>,
) -> (r: WorkspaceOutcome)
    ensures
        ({
            let v = workspace::validation_of(
                ws.deep_view().spec,
                workspace_root@,
                lookup(fetched.deep_view()),
            );
            &&& r.phase == v.phase
            &&& r.status.deep_view() == derived_status(ws.deep_view(), v)
            &&& r.requeue == requeue_of(v.phase)
        }),
{
    let ghost all = fetched.deep_view();
    let present = |s: &str, k: &str| -> (b: bool)
        ensures
            b == is_present(fetched.deep_view(), s@, k@),
        {
            present_among(fetched, s, k)
        };
    let v = validate_workspace(&ws.spec, workspace_root, present);
    proof {
        assert(workspace::decides(present, lookup(all)));
        workspace::law_validation_is_determined(
            ws.deep_view().spec,
            workspace_root@,
            present,
            lookup(all),
            v.deep_view(),
        );
    }
    let phase = v.phase;
    let status = derive_workspace_status(ws, v);
    WorkspaceOutcome { phase, status, requeue: requeue_after(phase) }
}

// ---------------------------------------------------------------------------------------------
// Laws
// ---------------------------------------------------------------------------------------------

/// A derived status settles the workspace that carries it: deriving again from the same validation
/// gives nothing to write.
pub proof fn law_written_status_is_stable(ws: WorkspaceView, v: WorkspaceValidationView)
    requires
        derived_status(ws, v) is Some,
    ensures
        derived_status(WorkspaceView { status: derived_status(ws, v), ..ws }, v) is None,
{
}

/// A status that is written reflects the generation that was validated and the outcome, and keeps
/// the conditions that were there.
pub proof fn law_status_reflects_the_validation(ws: WorkspaceView, v: WorkspaceValidationView)
    ensures
        derived_status(ws, v) matches Some(next) ==> {
            &&& next.phase == v.phase
            &&& next.message == v.message
            &&& next.observed_generation == ws.metadata.generation
            &&& ws.status matches Some(cur) ==> next.conditions == cur.conditions
        },
{
}

/// A workspace that is not ready is looked at again sooner than one that is.
pub proof fn law_unready_is_rechecked_sooner(phase: WorkspacePhase)
    requires
        phase != WorkspacePhase::Ready,
    ensures
        requeue_of(phase) < requeue_of(WorkspacePhase::Ready),
{
}

/// It is enough to fetch the Secrets that the providers refer to: two sets of fetched Secrets that
/// agree on those give the same validation.
pub proof fn law_referenced_secrets_are_enough(
    spec: WorkspaceSpecView,
    root: Seq<char>,
    a: Seq<FetchedSecretView>,
    b: Seq<FetchedSecretView>,
)
    requires
        forall|name: Seq<char>, key: Seq<char>|
            refers_to(spec.providers, spec.providers.len() as int, name) ==> #[trigger] is_present(
                a,
                name,
                key,
            ) == is_present(b, name, key),
    ensures
        workspace::validation_of(spec, root, lookup(a)) == workspace::validation_of(
            spec,
            root,
            lookup(b),
        ),
{
    lemma_missing_agrees(spec.providers, a, b, spec.providers.len() as int);
}

proof fn lemma_missing_agrees(
    providers: Seq<ProviderView>,
    a: Seq<FetchedSecretView>,
    b: Seq<FetchedSecretView>,
    n: int,
)
    requires
        0 <= n <= providers.len(),
        forall|name: Seq<char>, key: Seq<char>|
            refers_to(providers, providers.len() as int, name) ==> #[trigger] is_present(
                a,
                name,
                key,
            ) == is_present(b, name, key),
    ensures
        workspace::missing_at(providers, lookup(a), n) == workspace::missing_at(
            providers,
            lookup(b),
            n,
        ),
    decreases n,
{
    if n > 0 {
        lemma_missing_agrees(providers, a, b, n - 1);
        if let Some(c) = providers[n - 1].credentials_ref {
            assert(refers_to(providers, providers.len() as int, c.secret_name));
            assert(is_present(a, c.secret_name, c.key) == is_present(b, c.secret_name, c.key));
        }
    }
}

/// A workspace's status is written exactly if its phase, its message or the generation it was
/// observed at changes; the conditions of one that has no status yet are none.
pub proof fn law_status_is_written_on_change(ws: WorkspaceView, v: WorkspaceValidationView)
    ensures
        derived_status(ws, v) is None <==> {
            &&& ws.status is Some
            &&& ws.status->0.phase == v.phase
            &&& ws.status->0.message == v.message
            &&& ws.status->0.observed_generation == ws.metadata.generation
        },
        ws.status is None ==> derived_status(ws, v)->0.conditions.len() == 0,
{
}

/// A ready workspace is looked at again after five minutes, any other after fifteen seconds.
pub proof fn law_intervals()
    ensures
        requeue_of(WorkspacePhase::Ready) == 300,
        requeue_of(WorkspacePhase::Failed) == 15,
        requeue_of(WorkspacePhase::Pending) == 15,
        ERROR_REQUEUE == 30,
{
}

/// The patch that writes a status holds the status and nothing else.
pub proof fn law_patch_holds_the_status(status: WorkspaceStatusView, key: Seq<char>)
    ensures
        status_patch_of(status).get("status"@) == Some(wire::workspace_status_of(status)),
        key != "status"@ ==> status_patch_of(status).get(key) is None,
{
}

/// A key is present exactly if some Secret that was fetched by that name has it, among its data or
/// its string data.
pub proof fn law_presence(fetched: Seq<FetchedSecretView>, name: Seq<char>, key: Seq<char>)
    ensures
        lookup(fetched)(name, key) <==> exists|i: int|
            0 <= i < fetched.len() && (#[trigger] fetched[i]).name == name && ((
            fetched[i].secret.data is Some && fetched[i].secret.data->0.contains(key)) || (
            fetched[i].secret.string_data is Some && fetched[i].secret.string_data->0.contains(
                key,
            ))),
{
    if is_present(fetched, name, key) {
        let i = choose|i: int|
            0 <= i < fetched.len() && (#[trigger] fetched[i]).name == name
                && fetched[i].secret.has_key(key);
        assert(fetched[i].name == name);
    }
}

/// The Secrets that are fetched are those that some provider refers to, and no others.
pub proof fn law_referenced(spec: WorkspaceSpecView, name: Seq<char>)
    ensures
        refers_to(spec.providers, spec.providers.len() as int, name) <==> exists|i: int|
            0 <= i < spec.providers.len() && (#[trigger] spec.providers[i]).credentials_ref is Some
                && spec.providers[i].credentials_ref->0.secret_name == name,
{
}

} // verus!
