//! The plain configuration and the secret material beside it.
use vstd::prelude::*;

use crate::domain::{AccountProfile, AccountProfileView};
use crate::text;

verus! {

/// Versioned plain-text config that stores profile metadata and secret references, but never
/// secret payloads.
#[derive(Debug, PartialEq, Eq)]
pub struct PlainConfig {
    pub version: u32,
    pub default_profile_id: Option<String>,
    pub profiles: Vec<ConfiguredProfile>,
}

/// The model of a [`PlainConfig`].
#[verifier::ext_equal]
pub struct PlainConfigView {
    pub version: u32,
    pub default_profile_id: Option<Seq<char>>,
    pub profiles: Seq<ConfiguredProfileView>,
}

impl View for PlainConfig {
    type V = PlainConfigView;

    open spec fn view(&self) -> PlainConfigView {
        PlainConfigView {
            version: self.version,
            default_profile_id: self.default_profile_id.deep_view(),
            profiles: self.profiles.deep_view(),
        }
    }
}

impl DeepView for PlainConfig {
    type V = PlainConfigView;

    open spec fn deep_view(&self) -> PlainConfigView {
        self@
    }
}

impl Clone for PlainConfig {
    fn clone(&self) -> (r: Self)
        ensures
            r@ == self@,
    {
        let mut profiles: Vec<ConfiguredProfile> = Vec::new();
        let ghost all = self.profiles.deep_view();
        let mut i: usize = 0;
        while i < self.profiles.len()
            invariant
                i <= self.profiles.len(),
                all == self.profiles.deep_view(),
                profiles.deep_view() == all.take(i as int),
            decreases self.profiles.len() - i,
        {
            let ghost done = profiles.deep_view();
            profiles.push(self.profiles[i].clone());
            i = i + 1;
            assert(profiles.deep_view() =~= done.push(all[i - 1]));
            assert(all.take(i as int) =~= all.take(i - 1).push(all[i - 1]));
        }
        assert(all.take(i as int) =~= all);
        PlainConfig {
            version: self.version,
            default_profile_id: self.default_profile_id.clone(),
            profiles,
        }
    }
}

/// Couples a canonical domain profile with the opaque handle used to look up its secrets
/// elsewhere.
#[derive(Debug, PartialEq, Eq)]
pub struct ConfiguredProfile {
    pub profile: AccountProfile,
    pub secret_ref: SecretRef,
}

/// The model of a [`ConfiguredProfile`].
#[verifier::ext_equal]
pub struct ConfiguredProfileView {
    pub profile: AccountProfileView,
    pub secret_ref: SecretRefView,
}

impl View for ConfiguredProfile {
    type V = ConfiguredProfileView;

    open spec fn view(&self) -> ConfiguredProfileView {
        ConfiguredProfileView { profile: self.profile@, secret_ref: self.secret_ref@ }
    }
}

impl DeepView for ConfiguredProfile {
    type V = ConfiguredProfileView;

    open spec fn deep_view(&self) -> ConfiguredProfileView {
        self@
    }
}

impl Clone for ConfiguredProfile {
    fn clone(&self) -> (r: Self)
        ensures
            r@ == self@,
    {
        ConfiguredProfile { profile: self.profile.clone(), secret_ref: self.secret_ref.clone() }
    }
}

/// Opaque secret lookup target that may point at a keychain entry, file-backed store, or other
/// secret backend.
#[derive(Debug, PartialEq, Eq)]
pub enum SecretRef {
    Keychain { service: String, account: String },
    File { path: String, key_path: Option<String> },
    Managed { id: String },
}

/// The model of a [`SecretRef`].
#[verifier::ext_equal]
pub enum SecretRefView {
    Keychain { service: Seq<char>, account: Seq<char> },
    File { path: Seq<char>, key_path: Option<Seq<char>> },
    Managed { id: Seq<char> },
}

impl View for SecretRef {
    type V = SecretRefView;

    open spec fn view(&self) -> SecretRefView {
        match *self {
            SecretRef::Keychain { service, account } => SecretRefView::Keychain {
                service: service@,
                account: account@,
            },
            SecretRef::File { path, key_path } => SecretRefView::File {
                path: path@,
                key_path: key_path.deep_view(),
            },
            SecretRef::Managed { id } => SecretRefView::Managed { id: id@ },
        }
    }
}

impl DeepView for SecretRef {
    type V = SecretRefView;

    open spec fn deep_view(&self) -> SecretRefView {
        self@
    }
}

impl Clone for SecretRef {
    fn clone(&self) -> (r: Self)
        ensures
            r@ == self@,
    {
        match self {
            SecretRef::Keychain { service, account } => SecretRef::Keychain {
                service: service.clone(),
                account: account.clone(),
            },
            SecretRef::File { path, key_path } => SecretRef::File {
                path: path.clone(),
                key_path: key_path.clone(),
            },
            SecretRef::Managed { id } => SecretRef::Managed { id: id.clone() },
        }
    }
}

/// Separate serialized contract for secret/session material that must never live in plain TOML
/// config.
#[derive(Debug, Clone, PartialEq, Eq)]
pub struct SecretMaterial {
    pub version: u32,
    pub entries: Vec<SecretEntry>,
}

/// The model of a [`SecretMaterial`].
#[verifier::ext_equal]
pub struct SecretMaterialView {
    pub version: u32,
    pub entries: Seq<SecretEntryView>,
}

impl View for SecretMaterial {
    type V = SecretMaterialView;

    open spec fn view(&self) -> SecretMaterialView {
        SecretMaterialView { version: self.version, entries: self.entries.deep_view() }
    }
}

impl DeepView for SecretMaterial {
    type V = SecretMaterialView;

    open spec fn deep_view(&self) -> SecretMaterialView {
        self@
    }
}

/// The secret of the first entry for a profile.
pub open spec fn entry_of(entries: Seq<SecretEntryView>, profile_id: Seq<char>) -> Option<
    AuthSecretView,
>
    decreases entries.len(),
{
    if entries.len() == 0 {
        None
    } else if entries[0].profile_id == profile_id {
        Some(entries[0].secret)
    } else {
        entry_of(entries.drop_first(), profile_id)
    }
}

impl SecretMaterial {
    /// The secret of the first entry for a profile.
    pub fn find(&self, profile_id: &str) -> (r: Option<&AuthSecret>)
        ensures
            r.deep_view() == entry_of(self@.entries, profile_id@),
    {
        let ghost all = self@.entries;
        let mut i: usize = 0;
        assert(all.skip(0) =~= all);
        while i < self.entries.len()
            invariant
                i <= self.entries.len(),
                all == self.entries.deep_view(),
                entry_of(all, profile_id@) == entry_of(all.skip(i as int), profile_id@),
                all == self@.entries,
            decreases self.entries.len() - i,
        {
            assert(all.skip(i as int)[0] == self.entries@[i as int]@);
            if text::same(self.entries[i].profile_id.as_str(), profile_id) {
                return Some(&self.entries[i].secret);
            }
            i = i + 1;
            assert(all.skip(i - 1).drop_first() =~= all.skip(i as int));
        }
        None
    }
}

/// Associates one profile ID with its auth payload in the separate secret material contract.
#[derive(Debug, Clone, PartialEq, Eq)]
pub struct SecretEntry {
    pub profile_id: String,
    pub secret: AuthSecret,
}

/// The model of a [`SecretEntry`].
#[verifier::ext_equal]
pub struct SecretEntryView {
    pub profile_id: Seq<char>,
    pub secret: AuthSecretView,
}

impl View for SecretEntry {
    type V = SecretEntryView;

    open spec fn view(&self) -> SecretEntryView {
        SecretEntryView { profile_id: self.profile_id@, secret: self.secret@ }
    }
}

impl DeepView for SecretEntry {
    type V = SecretEntryView;

    open spec fn deep_view(&self) -> SecretEntryView {
        self@
    }
}

/// Secret/session payload variants for the three supported auth modes.
#[derive(Debug, PartialEq, Eq)]
pub enum AuthSecret {
    BrowserSession { session_payload: String },
    HeadlessSession { session_payload: String },
    ApiKey { api_key: String },
}

/// The model of an [`AuthSecret`].
#[verifier::ext_equal]
pub enum AuthSecretView {
    BrowserSession { session_payload: Seq<char> },
    HeadlessSession { session_payload: Seq<char> },
    ApiKey { api_key: Seq<char> },
}

impl View for AuthSecret {
    type V = AuthSecretView;

    open spec fn view(&self) -> AuthSecretView {
        match *self {
            AuthSecret::BrowserSession { session_payload } => AuthSecretView::BrowserSession {
                session_payload: session_payload@,
            },
            AuthSecret::HeadlessSession { session_payload } => AuthSecretView::HeadlessSession {
                session_payload: session_payload@,
            },
            AuthSecret::ApiKey { api_key } => AuthSecretView::ApiKey { api_key: api_key@ },
        }
    }
}

impl DeepView for AuthSecret {
    type V = AuthSecretView;

    open spec fn deep_view(&self) -> AuthSecretView {
        self@
    }
}

impl Clone for AuthSecret {
    fn clone(&self) -> (r: Self)
        ensures
            r@ == self@,
    {
        match self {
            AuthSecret::BrowserSession { session_payload } => AuthSecret::BrowserSession {
                session_payload: session_payload.clone(),
            },
            AuthSecret::HeadlessSession { session_payload } => AuthSecret::HeadlessSession {
                session_payload: session_payload.clone(),
            },
            AuthSecret::ApiKey { api_key } => AuthSecret::ApiKey { api_key: api_key.clone() },
        }
    }
}

/// The secret that is found for a profile is that of the first entry with its id, and none is found
/// only where no entry has it.
pub proof fn lemma_entry_of(entries: Seq<SecretEntryView>, profile_id: Seq<char>)
    ensures
        match entry_of(entries, profile_id) {
            Some(secret) => exists|i: int|
                0 <= i < entries.len() && (#[trigger] entries[i]).profile_id == profile_id
                    && entries[i].secret == secret && forall|j: int|
                    0 <= j < i ==> (#[trigger] entries[j]).profile_id != profile_id,
            None => forall|i: int|
                0 <= i < entries.len() ==> (#[trigger] entries[i]).profile_id != profile_id,
        },
    decreases entries.len(),
{
    if entries.len() > 0 && entries[0].profile_id != profile_id {
        let rest = entries.drop_first();
        lemma_entry_of(rest, profile_id);
        assert(forall|j: int| 0 < j < entries.len() ==> #[trigger] entries[j] == rest[j - 1]);
        if let Some(secret) = entry_of(rest, profile_id) {
            let k = choose|i: int|
                0 <= i < rest.len() && (#[trigger] rest[i]).profile_id == profile_id
                    && rest[i].secret == secret && forall|j: int|
                    0 <= j < i ==> (#[trigger] rest[j]).profile_id != profile_id;
            assert(entries[k + 1] == rest[k]);
            assert forall|j: int| 0 <= j < k + 1 implies (#[trigger] entries[j]).profile_id
                != profile_id by {
                if j > 0 {
                    assert(rest[j - 1].profile_id != profile_id);
                }
            }
        }
    } else if entries.len() > 0 {
        assert(entries[0].profile_id == profile_id);
    }
}

} // verus!
