//! How a `CalibanTask`'s `spec.state` reaches caliban: caliban's storage settings, set through
//! environment overrides, so that the operator need not author caliban's settings file.

use vstd::prelude::*;

use crate::crd::{StateSpec, StateSpecView};
use crate::env;
use crate::objects::{EnvVar, EnvVarView, Secret, SecretView};
use crate::text;
use crate::workspace::{CredentialsRef, CredentialsRefView};

verus! {

/// Overrides `storage.substrate` (`fs` / `remote`).
pub const ENV_SUBSTRATE: &'static str = "CALIBAN_STORAGE_SUBSTRATE";

/// Overrides `storage.remote.url`.
pub const ENV_REMOTE_URL: &'static str = "CALIBAN_STORAGE_REMOTE_URL";

/// Overrides `storage.remote.token_env`, the *name* of the variable holding the bearer token.
pub const ENV_REMOTE_TOKEN_ENV: &'static str = "CALIBAN_STORAGE_REMOTE_TOKEN_ENV";

/// The variable the gonzalod bearer token is projected into from its Secret.
pub const TOKEN_ENV: &'static str = "GONZALO_TOKEN";

/// Where caliban keeps its state.
#[derive(Clone, Copy, Debug, PartialEq, Eq, Structural)]
pub enum Substrate {
    /// A shared gonzalod.
    Remote,
    /// The filesystem of the pod.
    Fs,
}

impl Substrate {
    /// The substrate's name in caliban's vocabulary.
    pub open spec fn text(self) -> Seq<char> {
        match self {
            Substrate::Remote => "remote"@,
            Substrate::Fs => "fs"@,
        }
    }

    /// The substrate's name in caliban's vocabulary.
    pub fn name(self) -> (r: &'static str)
        ensures
            r@ == self.text(),
    {
        match self {
            Substrate::Remote => "remote",
            Substrate::Fs => "fs",
        }
    }
}

impl StateSpecView {
    /// The substrate that the state selects, if any: `remote` and `local` say so, and an endpoint
    /// without a mode means remote.
    pub open spec fn substrate(self) -> Option<Substrate> {
        match self.mode {
            Some(mode) => if mode == "remote"@ {
                Some(Substrate::Remote)
            } else if mode == "local"@ {
                Some(Substrate::Fs)
            } else {
                None
            },
            None => if self.gonzalo_endpoint is Some {
                Some(Substrate::Remote)
            } else {
                None
            },
        }
    }

    /// What keeps the state from being projected, if anything does.
    pub open spec fn problem(self) -> Option<Seq<char>> {
        if self.mode matches Some(mode) && mode != "remote"@ && mode != "local"@ {
            Some("state.mode '"@ + self.mode->0 + "' is not one of: remote, local"@)
        } else if self.mode == Some("remote"@) && self.gonzalo_endpoint is None {
            Some("state.mode remote requires state.gonzaloEndpoint"@)
        } else if self.mode == Some("local"@) && self.gonzalo_endpoint is Some {
            Some("state.gonzaloEndpoint is set, but state.mode local never uses it"@)
        } else if self.token_ref is Some && self.substrate() != Some(Substrate::Remote) {
            Some("state.tokenRef requires remote storage (set state.gonzaloEndpoint)"@)
        } else {
            None
        }
    }

    /// The environment of caliband for this state.
    pub open spec fn env(self) -> Seq<EnvVarView> {
        match self.substrate() {
            None => Seq::empty(),
            Some(Substrate::Fs) => seq![EnvVarView::plain(ENV_SUBSTRATE@, Substrate::Fs.text())],
            Some(Substrate::Remote) => seq![
                EnvVarView::plain(ENV_SUBSTRATE@, Substrate::Remote.text()),
            ] + self.url_env() + self.token_env(),
        }
    }

    /// The variable that says where the remote store is.
    pub open spec fn url_env(self) -> Seq<EnvVarView> {
        match self.gonzalo_endpoint {
            Some(url) => seq![EnvVarView::plain(ENV_REMOTE_URL@, url)],
            None => Seq::empty(),
        }
    }

    /// The variables that hand caliban its bearer token: the name of the token's variable, and
    /// that variable, filled from its Secret.
    pub open spec fn token_env(self) -> Seq<EnvVarView> {
        match self.token_ref {
            Some(r) => seq![
                EnvVarView::plain(ENV_REMOTE_TOKEN_ENV@, TOKEN_ENV@),
                EnvVarView::from_secret(TOKEN_ENV@, r.secret_name, r.key),
            ],
            None => Seq::empty(),
        }
    }
}

/// caliban's storage substrate for a `spec.state`, in caliban's vocabulary. The CRD's `local` is
/// caliban's `fs`. An unset mode with an endpoint means remote.
fn substrate(state: &StateSpec) -> (r: Option<Substrate>)
    ensures
        r == state.deep_view().substrate(),
{
    match &state.mode {
        Some(mode) => if text::same(mode.as_str(), "remote") {
            Some(Substrate::Remote)
        } else if text::same(mode.as_str(), "local") {
            Some(Substrate::Fs)
        } else {
            None
        },
        None => if state.gonzalo_endpoint.is_some() {
            Some(Substrate::Remote)
        } else {
            None
        },
    }
}

/// Why a `spec.state` cannot be projected, if it cannot. Each case would otherwise fail late or
/// silently: an unknown mode, remote storage caliban refuses to start without a URL, an endpoint
/// local mode never uses, or a token with no remote store to authenticate to.
pub fn state_problem(state: &StateSpec) -> (r: Option<String>)
    ensures
        r.deep_view() == state.deep_view().problem(),
{
    if let Some(mode) = &state.mode {
        let remote = text::same(mode.as_str(), "remote");
        let local = text::same(mode.as_str(), "local");
        if !remote && !local {
            return Some(
                "state.mode '".to_string().concat(mode.as_str()).concat(
                    "' is not one of: remote, local",
                ),
            );
        }
        if remote && state.gonzalo_endpoint.is_none() {
            return Some("state.mode remote requires state.gonzaloEndpoint".to_string());
        }
        if local && state.gonzalo_endpoint.is_some() {
            return Some(
                "state.gonzaloEndpoint is set, but state.mode local never uses it".to_string(),
            );
        }
    }
    if state.token_ref.is_some() && substrate(state) != Some(Substrate::Remote) {
        return Some(
            "state.tokenRef requires remote storage (set state.gonzaloEndpoint)".to_string(),
        );
    }
    None
}

/// caliband environment for a task's `spec.state`. Empty when there is no state.
pub fn storage_env(state: Option<&StateSpec>) -> (r: Vec<EnvVar>)
    ensures
        r.deep_view() == storage_env_of(state.deep_view()),
{
    let mut e: Vec<EnvVar> = Vec::new();
    let state = match state {
        Some(s) => s,
        None => {
            assert(e.deep_view() =~= Seq::empty());
            return e;
        },
    };
    let ghost v = state.deep_view();
    match substrate(state) {
        None => {
            assert(e.deep_view() =~= Seq::empty());
        },
        Some(Substrate::Fs) => {
            e.push(env::plain(ENV_SUBSTRATE, Substrate::Fs.name()));
            assert(e.deep_view() =~= v.env());
        },
        Some(Substrate::Remote) => {
            e.push(env::plain(ENV_SUBSTRATE, Substrate::Remote.name()));
            let ghost e0 = seq![EnvVarView::plain(ENV_SUBSTRATE@, Substrate::Remote.text())];
            assert(e.deep_view() =~= e0);
            if let Some(url) = &state.gonzalo_endpoint {
                e.push(env::plain(ENV_REMOTE_URL, url.as_str()));
                assert(e.deep_view() =~= e0.push(EnvVarView::plain(ENV_REMOTE_URL@, url@)));
            }
            let ghost e1 = e0 + v.url_env();
            assert(e.deep_view() =~= e1);
            if let Some(r) = &state.token_ref {
                e.push(env::plain(ENV_REMOTE_TOKEN_ENV, TOKEN_ENV));
                assert(e.deep_view() =~= e1.push(
                    EnvVarView::plain(ENV_REMOTE_TOKEN_ENV@, TOKEN_ENV@),
                ));
                let ghost e2 = e.deep_view();
                e.push(env::from_secret(TOKEN_ENV, r.secret_name.as_str(), r.key.as_str()));
                assert(e.deep_view() =~= e2.push(
                    EnvVarView::from_secret(TOKEN_ENV@, r.secret_name@, r.key@),
                ));
            }
            assert(e.deep_view() =~= e1 + v.token_env());
        },
    }
    e
}

/// The environment of caliband for an optional state.
pub open spec fn storage_env_of(state: Option<StateSpecView>) -> Seq<EnvVarView> {
    match state {
        Some(s) => s.env(),
        None => Seq::empty(),
    }
}

impl SecretView {
    /// Whether the Secret has a value for `key`.
    pub open spec fn has_key(self, key: Seq<char>) -> bool {
        ||| self.data matches Some(keys) && keys.contains(key)
        ||| self.string_data matches Some(keys) && keys.contains(key)
    }
}

impl Secret {
    /// Whether the Secret has a value for `key`, under `data` or `stringData`.
    pub fn has_key(&self, key: &str) -> (r: bool)
        ensures
            r == self.deep_view().has_key(key@),
    {
        if let Some(keys) = &self.data {
            if text::among(keys, key) {
                return true;
            }
        }
        if let Some(keys) = &self.string_data {
            if text::among(keys, key) {
                return true;
            }
        }
        false
    }
}

/// What keeps the token Secret from backing a task, if anything does.
pub open spec fn token_problem(secret: Option<SecretView>, r: CredentialsRefView) -> Option<
    Seq<char>,
> {
    match secret {
        None => Some("state.tokenRef: secret '"@ + r.secret_name + "' not found"@),
        Some(s) => if s.has_key(r.key) {
            None
        } else {
            Some("state.tokenRef: secret '"@ + r.secret_name + "' has no key '"@ + r.key + "'"@)
        },
    }
}

/// Why the gonzalod token Secret cannot back the task, if it cannot: missing, or without the
/// referenced key in `data` or `stringData`.
pub fn token_secret_problem(secret: Option<&Secret>, r: &CredentialsRef) -> (p: Option<String>)
    ensures
        p.deep_view() == token_problem(secret.deep_view(), r.deep_view()),
{
    match secret {
        None => Some(
            "state.tokenRef: secret '".to_string().concat(r.secret_name.as_str()).concat(
                "' not found",
            ),
        ),
        Some(s) => if s.has_key(r.key.as_str()) {
            None
        } else {
            Some(
                "state.tokenRef: secret '".to_string().concat(r.secret_name.as_str()).concat(
                    "' has no key '",
                ).concat(r.key.as_str()).concat("'"),
            )
        },
    }
}

// ---------------------------------------------------------------------------------------------
// Laws
// ---------------------------------------------------------------------------------------------

/// The bearer token is never in the pod spec: its variable is there exactly for a remote state
/// with a token reference, and is filled from that Secret; every other variable is plain.
pub proof fn law_token_only_by_reference(state: StateSpecView)
    ensures
        forall|i: int|
            0 <= i < state.env().len() ==> {
                let e = #[trigger] state.env()[i];
                if e.name == TOKEN_ENV@ {
                    &&& state.token_ref is Some
                    &&& e == EnvVarView::from_secret(
                        TOKEN_ENV@,
                        state.token_ref->0.secret_name,
                        state.token_ref->0.key,
                    )
                } else {
                    e.value is Some && e.value_from is None
                }
            },
{
    reveal_strlit("CALIBAN_STORAGE_SUBSTRATE");
    reveal_strlit("CALIBAN_STORAGE_REMOTE_URL");
    reveal_strlit("CALIBAN_STORAGE_REMOTE_TOKEN_ENV");
    reveal_strlit("GONZALO_TOKEN");
    assert(ENV_SUBSTRATE@[0] == 'C' && ENV_REMOTE_URL@[0] == 'C' && ENV_REMOTE_TOKEN_ENV@[0] == 'C'
        && TOKEN_ENV@[0] == 'G');
}

/// A state without a problem that selects remote storage says where it is, so that caliban never
/// starts with remote storage and no URL.
pub proof fn law_remote_has_a_url(state: StateSpecView)
    requires
        state.problem() is None,
        state.substrate() == Some(Substrate::Remote),
    ensures
        state.gonzalo_endpoint is Some,
        state.env().contains(EnvVarView::plain(ENV_REMOTE_URL@, state.gonzalo_endpoint->0)),
{
    reveal_strlit("remote");
    reveal_strlit("local");
    assert(state.env()[1] == EnvVarView::plain(ENV_REMOTE_URL@, state.gonzalo_endpoint->0));
}

/// A state without a problem is used in full: whatever it sets reaches the environment.
pub proof fn law_nothing_is_ignored(state: StateSpecView)
    requires
        state.problem() is None,
    ensures
        state.mode is Some || state.gonzalo_endpoint is Some ==> state.substrate() is Some,
        state.gonzalo_endpoint is Some ==> state.substrate() == Some(Substrate::Remote),
        state.token_ref is Some ==> state.env().contains(
            EnvVarView::from_secret(
                TOKEN_ENV@,
                state.token_ref->0.secret_name,
                state.token_ref->0.key,
            ),
        ),
{
    reveal_strlit("remote");
    reveal_strlit("local");
    assert("remote"@.len() != "local"@.len());
    if let Some(r) = state.token_ref {
        let n = state.env().len() - 1;
        assert(state.env()[n] == EnvVarView::from_secret(TOKEN_ENV@, r.secret_name, r.key));
    }
}

/// A state is projected exactly if its mode, if it has one, is `remote` or `local`; `remote` comes
/// with an endpoint and `local` without one; and a token comes with a remote store. Each other state
/// is told what is wrong with it, the first thing first.
pub proof fn law_states(state: StateSpecView)
    ensures
        ({
            let p = state.problem();
            let has_url = state.gonzalo_endpoint is Some;
            match state.mode {
                Some(mode) => if mode == "remote"@ {
                    if has_url {
                        p is None
                    } else {
                        p == Some("state.mode remote requires state.gonzaloEndpoint"@)
                    }
                } else if mode == "local"@ {
                    if has_url {
                        p == Some("state.gonzaloEndpoint is set, but state.mode local never uses it"@)
                    } else if state.token_ref is Some {
                        p == Some("state.tokenRef requires remote storage (set state.gonzaloEndpoint)"@)
                    } else {
                        p is None
                    }
                } else {
                    p == Some("state.mode '"@ + mode + "' is not one of: remote, local"@)
                },
                None => if state.token_ref is Some && !has_url {
                    p == Some("state.tokenRef requires remote storage (set state.gonzaloEndpoint)"@)
                } else {
                    p is None
                },
            }
        }),
{
    reveal_strlit("remote");
    reveal_strlit("local");
    assert("remote"@.len() == 6 && "local"@.len() == 5);
}

/// What a projected state sets, variable by variable: nothing where it says nothing; `fs` for local
/// storage; and for remote storage, whether asked for by its mode or by its endpoint alone, `remote`
/// and the endpoint, and with a token the name of the token's variable and that variable, filled
/// from the Secret.
pub proof fn law_storage_variables(state: StateSpecView)
    requires
        state.problem() is None,
    ensures
        ({
            let e = storage_env_of(Some(state));
            let name = "GONZALO_TOKEN"@;
            &&& state.mode is None && state.gonzalo_endpoint is None ==> e.len() == 0
            &&& state.mode == Some("local"@) ==> {
                &&& e.len() == 1
                &&& e[0].name == "CALIBAN_STORAGE_SUBSTRATE"@ && e[0].value == Some("fs"@)
                    && e[0].value_from is None
            }
            &&& state.gonzalo_endpoint is Some ==> {
                &&& e.len() == (if state.token_ref is Some {
                    4int
                } else {
                    2int
                })
                &&& e[0].name == "CALIBAN_STORAGE_SUBSTRATE"@ && e[0].value == Some("remote"@)
                    && e[0].value_from is None
                &&& e[1].name == "CALIBAN_STORAGE_REMOTE_URL"@ && e[1].value
                    == state.gonzalo_endpoint && e[1].value_from is None
                &&& state.token_ref matches Some(r) ==> {
                    &&& e[2].name == "CALIBAN_STORAGE_REMOTE_TOKEN_ENV"@ && e[2].value == Some(name)
                        && e[2].value_from is None
                    &&& e[3].name == name && e[3].value is None
                    &&& e[3].value_from is Some && e[3].value_from->0.secret_key_ref is Some
                    &&& e[3].value_from->0.secret_key_ref->0.name == r.secret_name
                    &&& e[3].value_from->0.secret_key_ref->0.key == r.key
                    &&& e[3].value_from->0.secret_key_ref->0.optional == Some(false)
                }
            }
        }),
        storage_env_of(None).len() == 0,
{
    law_states(state);
    reveal_strlit("remote");
    reveal_strlit("local");
    assert("remote"@.len() == 6 && "local"@.len() == 5);
}

/// A Secret backs a token exactly if it is there and has the key, in either of its two places.
pub proof fn law_token_secrets(s: SecretView, r: CredentialsRefView)
    ensures
        token_problem(None, r) == Some("state.tokenRef: secret '"@ + r.secret_name + "' not found"@),
        (s.data is Some && s.data->0.contains(r.key)) || (s.string_data is Some
            && s.string_data->0.contains(r.key)) ==> s.has_key(r.key) && token_problem(Some(s), r)
            is None,
        !(s.data is Some && s.data->0.contains(r.key)) && !(s.string_data is Some
            && s.string_data->0.contains(r.key)) ==> !s.has_key(r.key) && token_problem(Some(s), r)
            == Some("state.tokenRef: secret '"@ + r.secret_name + "' has no key '"@ + r.key + "'"@),
{
}

} // verus!
