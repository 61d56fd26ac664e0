//! The configured profiles and the commands that change them.
use vstd::prelude::*;
use vstd::string::*;

use crate::commands::{
    Command, CommandView, ProfileCommand, ProfileCommandAction, ProfileCommandActionView,
};
use crate::config::{
    entry_of, AuthSecret, AuthSecretView, ConfiguredProfile, ConfiguredProfileView, PlainConfig,
    PlainConfigView, SecretEntryView, SecretMaterial, SecretRef, SecretRefView,
};
use crate::domain::{
    membership_of, no_bridge, AccountHealth, AccountKind, AccountKindView, AccountMembership,
    AccountMembershipView, AccountProfile, AccountProfileView, AuthMode, FutureSwitchBridge,
    MembershipTier, ProviderKind, ProviderKindView, RefreshPolicy,
};
use crate::store::{written_ref, StoreError, StoreErrorView};
use crate::text::{self, joined};

verus! {

/// Why a command on profiles failed; what the system or a reader reports is kept as its text.
#[derive(Debug, PartialEq, Eq)]
pub enum AuthError {
    Io(String),
    ConfigToml(String),
    ConfigTomlWrite(String),
    SecretJson(String),
    Store(StoreError),
    MissingProfile(String),
    InvalidAuthMode(String),
}

/// The model of an [`AuthError`].
#[verifier::ext_equal]
pub enum AuthErrorView {
    Io(Seq<char>),
    ConfigToml(Seq<char>),
    ConfigTomlWrite(Seq<char>),
    SecretJson(Seq<char>),
    Store(StoreErrorView),
    MissingProfile(Seq<char>),
    InvalidAuthMode(Seq<char>),
}

impl View for AuthError {
    type V = AuthErrorView;

    open spec fn view(&self) -> AuthErrorView {
        match *self {
            AuthError::Io(s) => AuthErrorView::Io(s@),
            AuthError::ConfigToml(s) => AuthErrorView::ConfigToml(s@),
            AuthError::ConfigTomlWrite(s) => AuthErrorView::ConfigTomlWrite(s@),
            AuthError::SecretJson(s) => AuthErrorView::SecretJson(s@),
            AuthError::Store(e) => AuthErrorView::Store(e@),
            AuthError::MissingProfile(s) => AuthErrorView::MissingProfile(s@),
            AuthError::InvalidAuthMode(s) => AuthErrorView::InvalidAuthMode(s@),
        }
    }
}

impl AuthErrorView {
    /// The text of the error.
    pub open spec fn text(self) -> Seq<char> {
        match self {
            AuthErrorView::Io(s) => "io failure: "@ + s,
            AuthErrorView::ConfigToml(s) => "config parse failure: "@ + s,
            AuthErrorView::ConfigTomlWrite(s) => "config render failure: "@ + s,
            AuthErrorView::SecretJson(s) => "secret material parse failure: "@ + s,
            AuthErrorView::Store(e) => "store failure: "@ + e.text(),
            AuthErrorView::MissingProfile(s) => "profile `"@ + s + "` not found"@,
            AuthErrorView::InvalidAuthMode(s) => "invalid auth mode `"@ + s + "`"@,
        }
    }
}

/// `before`, then `s`, then `after`.
fn between(before: &str, s: &str, after: &str) -> (r: String)
    ensures
        r@ == before@ + s@ + after@,
{
    let mut r = text::concat(before, s);
    r.append(after);
    r
}

impl AuthError {
    /// The text of the error.
    pub fn message(&self) -> (r: String)
        ensures
            r@ == self@.text(),
    {
        match self {
            AuthError::Io(s) => text::concat("io failure: ", s.as_str()),
            AuthError::ConfigToml(s) => text::concat("config parse failure: ", s.as_str()),
            AuthError::ConfigTomlWrite(s) => text::concat("config render failure: ", s.as_str()),
            AuthError::SecretJson(s) => text::concat("secret material parse failure: ", s.as_str()),
            AuthError::Store(e) => {
                let detail = e.message();
                text::concat("store failure: ", detail.as_str())
            },
            AuthError::MissingProfile(s) => between("profile `", s.as_str(), "` not found"),
            AuthError::InvalidAuthMode(s) => between("invalid auth mode `", s.as_str(), "`"),
        }
    }
}

/// The lines that a profile command shows.
#[derive(Debug, Clone, PartialEq, Eq)]
pub struct ProfileCommandOutput {
    pub lines: Vec<String>,
}

impl View for ProfileCommandOutput {
    type V = Seq<Seq<char>>;

    open spec fn view(&self) -> Seq<Seq<char>> {
        self.lines.deep_view()
    }
}

impl ProfileCommandOutput {
    pub fn render(&self) -> (r: String)
        ensures
            r@ == joined(self@),
    {
        text::join_lines(&self.lines)
    }

    fn line(line: String) -> (r: Self)
        ensures
            r@ == seq![line@],
    {
        let lines = vec![line];
        assert(lines.deep_view() =~= seq![line@]);
        ProfileCommandOutput { lines }
    }
}

/// The configured profiles.
#[derive(Debug, Clone)]
pub struct ProfileRepository {
    pub config: PlainConfig,
}

impl View for ProfileRepository {
    type V = PlainConfigView;

    open spec fn view(&self) -> PlainConfigView {
        self.config@
    }
}

/// The position of the first profile with an id.
pub open spec fn index_of(profiles: Seq<ConfiguredProfileView>, profile_id: Seq<char>) -> Option<int>
    decreases profiles.len(),
{
    if profiles.len() == 0 {
        None
    } else if profiles[0].profile.id == profile_id {
        Some(0)
    } else {
        match index_of(profiles.drop_first(), profile_id) {
            Some(i) => Some(i + 1),
            None => None,
        }
    }
}

/// `profiles` with the first profile of the same id replaced, or the new one behind them.
pub open spec fn upserted(
    profiles: Seq<ConfiguredProfileView>,
    configured: ConfiguredProfileView,
) -> Seq<ConfiguredProfileView> {
    match index_of(profiles, configured.profile.id) {
        Some(i) => profiles.update(i, configured),
        None => profiles.push(configured),
    }
}

/// The position of a profile is that of the first one with its id, and there is none only where no
/// profile has it.
pub proof fn lemma_index_of(profiles: Seq<ConfiguredProfileView>, profile_id: Seq<char>)
    ensures
        match index_of(profiles, profile_id) {
            Some(i) => {
                &&& 0 <= i < profiles.len()
                &&& profiles[i].profile.id == profile_id
                &&& forall|j: int| 0 <= j < i ==> (#[trigger] profiles[j]).profile.id != profile_id
            },
            None => forall|j: int|
                0 <= j < profiles.len() ==> (#[trigger] profiles[j]).profile.id != profile_id,
        },
    decreases profiles.len(),
{
    if profiles.len() > 0 && profiles[0].profile.id != profile_id {
        let left = profiles.drop_first();
        lemma_index_of(left, profile_id);
        assert forall|j: int| 0 < j < profiles.len() implies profiles[j] == left[j - 1] by {}
    }
}

/// The position that the first profile with an id must have.
proof fn lemma_index_of_first(
    profiles: Seq<ConfiguredProfileView>,
    profile_id: Seq<char>,
    i: int,
)
    requires
        0 <= i < profiles.len(),
        profiles[i].profile.id == profile_id,
        forall|j: int| 0 <= j < i ==> (#[trigger] profiles[j]).profile.id != profile_id,
    ensures
        index_of(profiles, profile_id) == Some(i),
{
    lemma_index_of(profiles, profile_id);
}

impl ProfileRepository {
    /// The repository that a command starts from where there is no configuration file.
    pub fn empty() -> (r: Self)
        ensures
            r@ == (PlainConfigView {
                version: 1,
                default_profile_id: None,
                profiles: Seq::empty(),
            }),
    {
        let r = ProfileRepository {
            config: PlainConfig { version: 1, default_profile_id: None, profiles: Vec::new() },
        };
        assert(r@.profiles =~= Seq::empty());
        r
    }

    pub fn list(&self) -> (r: &[ConfiguredProfile])
        ensures
            r@ == self.config.profiles@,
    {
        self.config.profiles.as_slice()
    }

    /// The position of the first profile with an id.
    fn position(&self, profile_id: &str) -> (r: Option<usize>)
        ensures
            match r {
                Some(i) => i < self.config.profiles@.len() && index_of(
                    self@.profiles,
                    profile_id@,
                ) == Some(i as int),
                None => index_of(self@.profiles, profile_id@) is None,
            },
    {
        let ghost all = self@.profiles;
        let mut i: usize = 0;
        while i < self.config.profiles.len()
            invariant
                i <= self.config.profiles.len(),
                all == self@.profiles,
                all.len() == self.config.profiles@.len(),
                forall|j: int| 0 <= j < i ==> (#[trigger] all[j]).profile.id != profile_id@,
            decreases self.config.profiles.len() - i,
        {
            assert(all[i as int] == self.config.profiles@[i as int]@);
            if text::same(self.config.profiles[i].profile.id.as_str(), profile_id) {
                proof {
                    lemma_index_of_first(all, profile_id@, i as int);
                }
                return Some(i);
            }
            i = i + 1;
        }
        proof {
            lemma_index_of(all, profile_id@);
        }
        None
    }

    /// Makes a configured profile the default one.
    pub fn set_default(&mut self, profile_id: &str) -> (r: Result<(), AuthError>)
        ensures
            match r {
                Ok(_) => {
                    &&& index_of(old(self)@.profiles, profile_id@) is Some
                    &&& final(self)@ == (PlainConfigView {
                        default_profile_id: Some(profile_id@),
                        ..old(self)@
                    })
                },
                Err(error) => {
                    &&& index_of(old(self)@.profiles, profile_id@) is None
                    &&& error@ == AuthErrorView::MissingProfile(profile_id@)
                    &&& final(self)@ == old(self)@
                },
            },
    {
        if self.position(profile_id).is_none() {
            return Err(AuthError::MissingProfile(profile_id.to_owned()));
        }
        self.config.default_profile_id = Some(profile_id.to_owned());
        Ok(())
    }

    /// Adds a profile, or replaces the one with its id.
    pub fn upsert(&mut self, profile: AccountProfile, secret_ref: SecretRef)
        ensures
            final(self)@ == (PlainConfigView {
                profiles: upserted(
                    old(self)@.profiles,
                    ConfiguredProfileView { profile: profile@, secret_ref: secret_ref@ },
                ),
                ..old(self)@
            }),
    {
        let ghost all = self@.profiles;
        let ghost new = ConfiguredProfileView { profile: profile@, secret_ref: secret_ref@ };
        match self.position(profile.id.as_str()) {
            Some(i) => {
                self.config.profiles.set(i, ConfiguredProfile { profile, secret_ref });
                assert(self@.profiles =~= all.update(i as int, new));
            },
            None => {
                self.config.profiles.push(ConfiguredProfile { profile, secret_ref });
                assert(self@.profiles =~= all.push(new));
            },
        }
    }

    /// Removes the first profile with an id and returns it.
    pub fn remove(&mut self, profile_id: &str) -> (r: Result<ConfiguredProfile, AuthError>)
        ensures
            match (r, index_of(old(self)@.profiles, profile_id@)) {
                (Ok(removed), Some(i)) => {
                    &&& removed@ == old(self)@.profiles[i]
                    &&& final(self)@ == (PlainConfigView {
                        profiles: old(self)@.profiles.remove(i),
                        ..old(self)@
                    })
                },
                (Err(error), None) => {
                    &&& error@ == AuthErrorView::MissingProfile(profile_id@)
                    &&& final(self)@ == old(self)@
                },
                _ => false,
            },
    {
        let ghost all = self@.profiles;
        match self.position(profile_id) {
            Some(i) => {
                let removed = self.config.profiles.remove(i);
                assert(self@.profiles =~= all.remove(i as int));
                Ok(removed)
            },
            None => Err(AuthError::MissingProfile(profile_id.to_owned())),
        }
    }

    /// The first profile with an id.
    pub fn find(&self, profile_id: &str) -> (r: Option<&ConfiguredProfile>)
        ensures
            r.deep_view() == (match index_of(self@.profiles, profile_id@) {
                Some(i) => Some(self@.profiles[i]),
                None => None,
            }),
    {
        match self.position(profile_id) {
            Some(i) => Some(&self.config.profiles[i]),
            None => None,
        }
    }

    /// The first profile with an id, to be changed in its place.
    pub fn find_mut(&mut self, profile_id: &str) -> (r: Option<&mut ConfiguredProfile>)
        ensures
            match (r, index_of(old(self)@.profiles, profile_id@)) {
                (Some(configured), Some(i)) => {
                    &&& configured@ == old(self)@.profiles[i]
                    &&& final(self)@ == (PlainConfigView {
                        profiles: old(self)@.profiles.update(i, (*final(configured))@),
                        ..old(self)@
                    })
                },
                (None, None) => final(self)@ == old(self)@,
                _ => false,
            },
    {
        match self.position(profile_id) {
            Some(i) => Some(&mut self.config.profiles[i]),
            None => None,
        }
    }
}

pub open spec fn provider_named(value: Seq<char>) -> ProviderKindView {
    if value == "codex_protocol"@ {
        ProviderKindView::CodexProtocol
    } else if value == "openai_api_usage"@ {
        ProviderKindView::OpenAiApiUsage
    } else {
        ProviderKindView::Other(value)
    }
}

pub fn parse_provider(value: &str) -> (r: ProviderKind)
    ensures
        r@ == provider_named(value@),
{
    if text::same(value, "codex_protocol") {
        ProviderKind::CodexProtocol
    } else if text::same(value, "openai_api_usage") {
        ProviderKind::OpenAiApiUsage
    } else {
        ProviderKind::Other(value.to_owned())
    }
}

pub open spec fn auth_mode_named(value: Seq<char>) -> Option<AuthMode> {
    if value == "browser"@ {
        Some(AuthMode::Browser)
    } else if value == "headless"@ {
        Some(AuthMode::Headless)
    } else if value == "api_key"@ {
        Some(AuthMode::ApiKey)
    } else {
        None
    }
}

pub fn parse_auth_mode(value: &str) -> (r: Result<AuthMode, AuthError>)
    ensures
        match r {
            Ok(mode) => auth_mode_named(value@) == Some(mode),
            Err(error) => auth_mode_named(value@) is None && error@
                == AuthErrorView::InvalidAuthMode(value@),
        },
{
    if text::same(value, "browser") {
        Ok(AuthMode::Browser)
    } else if text::same(value, "headless") {
        Ok(AuthMode::Headless)
    } else if text::same(value, "api_key") {
        Ok(AuthMode::ApiKey)
    } else {
        Err(AuthError::InvalidAuthMode(value.to_owned()))
    }
}

pub open spec fn account_kind_named(value: Seq<char>) -> AccountKindView {
    if value == "chatgpt"@ {
        AccountKindView::Chatgpt
    } else if value == "api_key"@ {
        AccountKindView::ApiKey
    } else {
        AccountKindView::Other(value)
    }
}

pub fn parse_account_kind(value: &str) -> (r: AccountKind)
    ensures
        r@ == account_kind_named(value@),
{
    if text::same(value, "chatgpt") {
        AccountKind::Chatgpt
    } else if text::same(value, "api_key") {
        AccountKind::ApiKey
    } else {
        AccountKind::Other(value.to_owned())
    }
}

pub open spec fn membership_tier_named(value: Seq<char>) -> MembershipTier {
    if value == "free"@ {
        MembershipTier::Free
    } else if value == "go"@ {
        MembershipTier::Go
    } else if value == "plus"@ {
        MembershipTier::Plus
    } else if value == "pro"@ {
        MembershipTier::Pro
    } else if value == "team"@ {
        MembershipTier::Team
    } else if value == "edu"@ {
        MembershipTier::Edu
    } else if value == "business"@ {
        MembershipTier::Business
    } else if value == "enterprise"@ {
        MembershipTier::Enterprise
    } else if value == "unknown"@ {
        MembershipTier::Unknown
    } else {
        MembershipTier::Other
    }
}

pub fn parse_membership_tier(value: &str) -> (r: MembershipTier)
    ensures
        r == membership_tier_named(value@),
{
    if text::same(value, "free") {
        MembershipTier::Free
    } else if text::same(value, "go") {
        MembershipTier::Go
    } else if text::same(value, "plus") {
        MembershipTier::Plus
    } else if text::same(value, "pro") {
        MembershipTier::Pro
    } else if text::same(value, "team") {
        MembershipTier::Team
    } else if text::same(value, "edu") {
        MembershipTier::Edu
    } else if text::same(value, "business") {
        MembershipTier::Business
    } else if text::same(value, "enterprise") {
        MembershipTier::Enterprise
    } else if text::same(value, "unknown") {
        MembershipTier::Unknown
    } else {
        MembershipTier::Other
    }
}

pub open spec fn auth_mode_text(value: AuthMode) -> Seq<char> {
    match value {
        AuthMode::Browser => "browser"@,
        AuthMode::Headless => "headless"@,
        AuthMode::ApiKey => "api_key"@,
    }
}

pub fn render_auth_mode(value: &AuthMode) -> (r: &'static str)
    ensures
        r@ == auth_mode_text(*value),
{
    match value {
        AuthMode::Browser => "browser",
        AuthMode::Headless => "headless",
        AuthMode::ApiKey => "api_key",
    }
}

pub open spec fn account_kind_text(value: AccountKindView) -> Seq<char> {
    match value {
        AccountKindView::Chatgpt => "chatgpt"@,
        AccountKindView::ApiKey => "api_key"@,
        AccountKindView::Other(_) => "other"@,
    }
}

pub fn render_account_kind(value: &AccountKind) -> (r: &'static str)
    ensures
        r@ == account_kind_text(value@),
{
    match value {
        AccountKind::Chatgpt => "chatgpt",
        AccountKind::ApiKey => "api_key",
        AccountKind::Other(_) => "other",
    }
}

/// The line for one profile; the default one is marked.
pub open spec fn profile_line(configured: ConfiguredProfileView, default_id: Option<Seq<char>>) -> Seq<
    char,
> {
    (if default_id == Some(configured.profile.id) {
        "*"@
    } else {
        " "@
    }) + " "@ + configured.profile.id + " | "@ + configured.profile.display_name + " | "@
        + auth_mode_text(configured.profile.auth_mode) + " | "@ + account_kind_text(
        configured.profile.account_kind,
    )
}

/// The lines for all profiles, in their order.
pub open spec fn profile_lines(config: PlainConfigView) -> Seq<Seq<char>> {
    config.profiles.map_values(
        |configured: ConfiguredProfileView| profile_line(configured, config.default_profile_id),
    )
}

/// Whether `id` is the text that `wanted` holds.
fn is_text(wanted: &Option<String>, id: &str) -> (r: bool)
    ensures
        r == (wanted.deep_view() == Some(id@)),
{
    match wanted {
        Some(w) => text::same(w.as_str(), id),
        None => false,
    }
}

pub fn render_profile_list(repository: &ProfileRepository) -> (r: ProfileCommandOutput)
    ensures
        r@ == profile_lines(repository@),
{
    let ghost wanted = profile_lines(repository@);
    let mut lines: Vec<String> = Vec::new();
    let mut i: usize = 0;
    while i < repository.config.profiles.len()
        invariant
            i <= repository.config.profiles.len(),
            wanted == profile_lines(repository@),
            lines.deep_view() == wanted.take(i as int),
        decreases repository.config.profiles.len() - i,
    {
        let ghost done = lines.deep_view();
        let configured = &repository.config.profiles[i];
        assert(repository@.profiles[i as int] == configured@);
        let marker = if is_text(
            &repository.config.default_profile_id,
            configured.profile.id.as_str(),
        ) {
            "*"
        } else {
            " "
        };
        let mut line = text::concat(marker, " ");
        line.append(configured.profile.id.as_str());
        line.append(" | ");
        line.append(configured.profile.display_name.as_str());
        line.append(" | ");
        line.append(render_auth_mode(&configured.profile.auth_mode));
        line.append(" | ");
        line.append(render_account_kind(&configured.profile.account_kind));
        lines.push(line);
        i = i + 1;
        assert(wanted[i - 1] == profile_line(configured@, repository@.default_profile_id));
        assert(lines.deep_view() =~= done.push(wanted[i - 1]));
        assert(wanted.take(i as int) =~= wanted.take(i - 1).push(wanted[i - 1]));
    }
    assert(wanted.take(i as int) =~= wanted);
    ProfileCommandOutput { lines }
}

/// The membership of a profile that is written by hand: the tier that is named, or else that of
/// the plan type; the plan type is kept as it was given.
pub open spec fn membership_named(tier: Option<Seq<char>>, plan_type: Option<Seq<char>>) -> Option<
    AccountMembershipView,
> {
    match (tier, membership_of(plan_type)) {
        (Some(name), _) => Some(
            AccountMembershipView { tier: membership_tier_named(name), raw_plan_type: plan_type },
        ),
        (None, Some(membership)) => Some(
            AccountMembershipView { tier: membership.tier, raw_plan_type: plan_type },
        ),
        (None, None) => None,
    }
}

fn as_text(value: &Option<String>) -> (r: Option<&str>)
    ensures
        r.deep_view() == value.deep_view(),
{
    match value {
        Some(s) => Some(s.as_str()),
        None => None,
    }
}

pub fn build_membership(membership_tier: &Option<String>, plan_type: &Option<String>) -> (r: Option<
    AccountMembership,
>)
    ensures
        r.deep_view() == membership_named(membership_tier.deep_view(), plan_type.deep_view()),
{
    match membership_tier {
        Some(name) => Some(
            AccountMembership {
                tier: parse_membership_tier(name.as_str()),
                raw_plan_type: plan_type.clone(),
            },
        ),
        None => match AccountMembership::from_plan_type(as_text(plan_type)) {
            Some(membership) => Some(
                AccountMembership { tier: membership.tier, raw_plan_type: plan_type.clone() },
            ),
            None => None,
        },
    }
}

/// A new profile: healthy, refreshed every five minutes and on demand.
pub open spec fn new_profile(
    profile_id: Seq<char>,
    display_name: Seq<char>,
    provider: Seq<char>,
    auth_mode: AuthMode,
    account_kind: Seq<char>,
    membership_tier: Option<Seq<char>>,
    plan_type: Option<Seq<char>>,
) -> AccountProfileView {
    AccountProfileView {
        id: profile_id,
        display_name,
        provider: provider_named(provider),
        auth_mode,
        account_kind: account_kind_named(account_kind),
        membership: membership_named(membership_tier, plan_type),
        health: AccountHealth::Healthy,
        refresh_policy: RefreshPolicy { refresh_interval_secs: 300, allow_manual_refresh: true },
        future_switch_bridge: no_bridge(),
    }
}

pub fn build_profile(
    profile_id: &str,
    display_name: &str,
    provider: &str,
    auth_mode: &str,
    account_kind: &str,
    membership_tier: &Option<String>,
    plan_type: &Option<String>,
) -> (r: Result<AccountProfile, AuthError>)
    ensures
        match auth_mode_named(auth_mode@) {
            Some(mode) => r matches Ok(profile) && profile@ == new_profile(
                profile_id@,
                display_name@,
                provider@,
                mode,
                account_kind@,
                membership_tier.deep_view(),
                plan_type.deep_view(),
            ),
            None => r matches Err(error) && error@ == AuthErrorView::InvalidAuthMode(auth_mode@),
        },
{
    let mode = match parse_auth_mode(auth_mode) {
        Ok(mode) => mode,
        Err(error) => {
            return Err(error);
        },
    };
    Ok(
        AccountProfile {
            id: profile_id.to_owned(),
            display_name: display_name.to_owned(),
            provider: parse_provider(provider),
            auth_mode: mode,
            account_kind: parse_account_kind(account_kind),
            membership: build_membership(membership_tier, plan_type),
            health: AccountHealth::Healthy,
            refresh_policy: RefreshPolicy { refresh_interval_secs: 300, allow_manual_refresh: true },
            future_switch_bridge: FutureSwitchBridge::default(),
        },
    )
}

/// A secret in the form that an auth mode takes.
pub open spec fn secret_for(mode: AuthMode, secret: Seq<char>) -> AuthSecretView {
    match mode {
        AuthMode::Browser => AuthSecretView::BrowserSession { session_payload: secret },
        AuthMode::Headless => AuthSecretView::HeadlessSession { session_payload: secret },
        AuthMode::ApiKey => AuthSecretView::ApiKey { api_key: secret },
    }
}

pub fn build_auth_secret(auth_mode: &str, secret: &str) -> (r: Result<AuthSecret, AuthError>)
    ensures
        match auth_mode_named(auth_mode@) {
            Some(mode) => r matches Ok(built) && built@ == secret_for(mode, secret@),
            None => r matches Err(error) && error@ == AuthErrorView::InvalidAuthMode(auth_mode@),
        },
{
    match parse_auth_mode(auth_mode) {
        Ok(AuthMode::Browser) => Ok(
            AuthSecret::BrowserSession { session_payload: secret.to_owned() },
        ),
        Ok(AuthMode::Headless) => Ok(
            AuthSecret::HeadlessSession { session_payload: secret.to_owned() },
        ),
        Ok(AuthMode::ApiKey) => Ok(AuthSecret::ApiKey { api_key: secret.to_owned() }),
        Err(error) => Err(error),
    }
}

/// What is left to do for a profile command once its change has been made to the repository.
#[derive(Debug)]
pub enum ProfileStep {
    /// Show the output; the repository is as it was.
    Show(ProfileCommandOutput),
    /// Save the repository, then show the output.
    Save(ProfileCommandOutput),
    /// Delete a profile's secret, whether or not that succeeds; then save and show.
    DeleteSecret { secret_ref: SecretRef, profile_id: String, output: ProfileCommandOutput },
    /// Write a profile's secret, to a file or to the keychain, and go on with `finish_login`.
    WriteSecret { profile_id: String, auth_mode: AuthMode, secret: AuthSecret, use_file_store: bool },
}

/// The model of a [`ProfileStep`].
#[allow(inconsistent_fields)]
#[verifier::ext_equal]
pub enum ProfileStepView {
    Show(Seq<Seq<char>>),
    Save(Seq<Seq<char>>),
    DeleteSecret { secret_ref: SecretRefView, profile_id: Seq<char>, output: Seq<Seq<char>> },
    WriteSecret {
        profile_id: Seq<char>,
        auth_mode: AuthMode,
        secret: AuthSecretView,
        use_file_store: bool,
    },
}

impl View for ProfileStep {
    type V = ProfileStepView;

    open spec fn view(&self) -> ProfileStepView {
        match *self {
            ProfileStep::Show(output) => ProfileStepView::Show(output@),
            ProfileStep::Save(output) => ProfileStepView::Save(output@),
            ProfileStep::DeleteSecret {
                secret_ref,
                profile_id,
                output,
            } => ProfileStepView::DeleteSecret {
                secret_ref: secret_ref@,
                profile_id: profile_id@,
                output: output@,
            },
            ProfileStep::WriteSecret {
                profile_id,
                auth_mode,
                secret,
                use_file_store,
            } => ProfileStepView::WriteSecret {
                profile_id: profile_id@,
                auth_mode,
                secret: secret@,
                use_file_store,
            },
        }
    }
}

/// What a profile command comes to: the next step, or an error.
pub open spec fn step_outcome(r: Result<ProfileStep, AuthError>) -> Result<
    ProfileStepView,
    AuthErrorView,
> {
    match r {
        Ok(step) => Ok(step@),
        Err(error) => Err(error@),
    }
}

/// The output of one line with a profile's id in it.
pub open spec fn id_line(before: Seq<char>, profile_id: Seq<char>) -> Seq<Seq<char>> {
    seq![before + profile_id + "`"@]
}

/// The step that takes a secret away and then saves; a secret that something else manages is
/// left alone.
pub open spec fn deletion(
    secret_ref: SecretRefView,
    profile_id: Seq<char>,
    output: Seq<Seq<char>>,
) -> ProfileStepView {
    match secret_ref {
        SecretRefView::Managed { .. } => ProfileStepView::Save(output),
        _ => ProfileStepView::DeleteSecret { secret_ref, profile_id, output },
    }
}

/// A profile after an edit: what the edit does not name stays.
pub open spec fn edited(
    profile: AccountProfileView,
    display_name: Option<Seq<char>>,
    refresh_interval_secs: Option<u64>,
    membership_tier: Option<Seq<char>>,
    plan_type: Option<Seq<char>>,
) -> AccountProfileView {
    AccountProfileView {
        display_name: match display_name {
            Some(name) => name,
            None => profile.display_name,
        },
        refresh_policy: match refresh_interval_secs {
            Some(secs) => RefreshPolicy { refresh_interval_secs: secs, ..profile.refresh_policy },
            None => profile.refresh_policy,
        },
        membership: if membership_tier is Some || plan_type is Some {
            membership_named(membership_tier, plan_type)
        } else {
            profile.membership
        },
        ..profile
    }
}

/// The configuration with the profile at `i` replaced.
pub open spec fn with_profile_at(
    config: PlainConfigView,
    i: int,
    configured: ConfiguredProfileView,
) -> PlainConfigView {
    PlainConfigView { profiles: config.profiles.update(i, configured), ..config }
}

/// What a profile command comes to, and the configuration after it.
pub open spec fn profile_step(action: ProfileCommandActionView, config: PlainConfigView) -> (
    Result<ProfileStepView, AuthErrorView>,
    PlainConfigView,
) {
    match action {
        ProfileCommandActionView::List => (
            Ok(ProfileStepView::Show(profile_lines(config))),
            config,
        ),
        ProfileCommandActionView::Add {
            profile_id,
            display_name,
            auth_mode,
            account_kind,
            provider,
            membership_tier,
            plan_type,
        } => match auth_mode_named(auth_mode) {
            None => (Err(AuthErrorView::InvalidAuthMode(auth_mode)), config),
            Some(mode) => (
                Ok(ProfileStepView::Save(id_line("added profile `"@, profile_id))),
                PlainConfigView {
                    default_profile_id: match config.default_profile_id {
                        Some(id) => Some(id),
                        None => Some(profile_id),
                    },
                    profiles: upserted(
                        config.profiles,
                        ConfiguredProfileView {
                            profile: new_profile(
                                profile_id,
                                display_name,
                                provider,
                                mode,
                                account_kind,
                                membership_tier,
                                plan_type,
                            ),
                            secret_ref: SecretRefView::Managed { id: "managed-"@ + profile_id },
                        },
                    ),
                    ..config
                },
            ),
        },
        ProfileCommandActionView::Edit {
            profile_id,
            display_name,
            refresh_interval_secs,
            membership_tier,
            plan_type,
        } => match index_of(config.profiles, profile_id) {
            None => (Err(AuthErrorView::MissingProfile(profile_id)), config),
            Some(i) => (
                Ok(ProfileStepView::Save(id_line("updated profile `"@, profile_id))),
                with_profile_at(
                    config,
                    i,
                    ConfiguredProfileView {
                        profile: edited(
                            config.profiles[i].profile,
                            display_name,
                            refresh_interval_secs,
                            membership_tier,
                            plan_type,
                        ),
                        ..config.profiles[i]
                    },
                ),
            ),
        },
        ProfileCommandActionView::SetDefault { profile_id } => if index_of(
            config.profiles,
            profile_id,
        ) is None {
            (Err(AuthErrorView::MissingProfile(profile_id)), config)
        } else {
            (
                Ok(ProfileStepView::Save(id_line("default profile set to `"@, profile_id))),
                PlainConfigView { default_profile_id: Some(profile_id), ..config },
            )
        },
        ProfileCommandActionView::Remove { profile_id } => match index_of(
            config.profiles,
            profile_id,
        ) {
            None => (Err(AuthErrorView::MissingProfile(profile_id)), config),
            Some(i) => {
                let left = config.profiles.remove(i);
                (
                    Ok(
                        deletion(
                            config.profiles[i].secret_ref,
                            config.profiles[i].profile.id,
                            id_line("removed profile `"@, profile_id),
                        ),
                    ),
                    PlainConfigView {
                        default_profile_id: if config.default_profile_id != Some(profile_id) {
                            config.default_profile_id
                        } else if left.len() > 0 {
                            Some(left[0].profile.id)
                        } else {
                            None
                        },
                        profiles: left,
                        ..config
                    },
                )
            },
        },
        ProfileCommandActionView::Login { profile_id, auth_mode, secret, use_file_store } =>
            if index_of(config.profiles, profile_id) is None {
                (Err(AuthErrorView::MissingProfile(profile_id)), config)
            } else {
                match auth_mode_named(auth_mode) {
                    None => (Err(AuthErrorView::InvalidAuthMode(auth_mode)), config),
                    Some(mode) => (
                        Ok(
                            ProfileStepView::WriteSecret {
                                profile_id,
                                auth_mode: mode,
                                secret: secret_for(mode, secret),
                                use_file_store,
                            },
                        ),
                        config,
                    ),
                }
            },
        ProfileCommandActionView::Logout { profile_id } => match index_of(
            config.profiles,
            profile_id,
        ) {
            None => (Err(AuthErrorView::MissingProfile(profile_id)), config),
            Some(i) => (
                Ok(
                    deletion(
                        config.profiles[i].secret_ref,
                        profile_id,
                        id_line("cleared login material for `"@, profile_id),
                    ),
                ),
                with_profile_at(
                    config,
                    i,
                    ConfiguredProfileView {
                        secret_ref: SecretRefView::Managed { id: "logged-out-"@ + profile_id },
                        ..config.profiles[i]
                    },
                ),
            ),
        },
    }
}

fn show_id(before: &str, profile_id: &str) -> (r: ProfileCommandOutput)
    ensures
        r@ == id_line(before@, profile_id@),
{
    ProfileCommandOutput::line(between(before, profile_id, "`"))
}

fn delete_secret(secret_ref: SecretRef, profile_id: String, output: ProfileCommandOutput) -> (r:
    ProfileStep)
    ensures
        r@ == deletion(secret_ref@, profile_id@, output@),
{
    match secret_ref {
        SecretRef::Managed { .. } => ProfileStep::Save(output),
        secret_ref => ProfileStep::DeleteSecret { secret_ref, profile_id, output },
    }
}

/// Makes the change that a profile command asks for, and says what is left to do: which secret
/// to write or delete, whether to save the repository, and what to show. Where it fails, the
/// repository is as it was.
pub fn run_profile_command(action: &ProfileCommandAction, repository: &mut ProfileRepository) -> (r:
    Result<ProfileStep, AuthError>)
    ensures
        (step_outcome(r), final(repository)@) == profile_step(action@, old(repository)@),
{
    let ghost config = repository@;
    proof {
        match action@ {
            ProfileCommandActionView::Edit { profile_id, .. } => lemma_index_of(config.profiles, profile_id),
            ProfileCommandActionView::Remove { profile_id } => lemma_index_of(config.profiles, profile_id),
            ProfileCommandActionView::Logout { profile_id } => lemma_index_of(config.profiles, profile_id),
            _ => {},
        }
    }
    match action {
        ProfileCommandAction::List => Ok(ProfileStep::Show(render_profile_list(repository))),
        ProfileCommandAction::Add {
            profile_id,
            display_name,
            auth_mode,
            account_kind,
            provider,
            membership_tier,
            plan_type,
        } => {
            let profile = match build_profile(
                profile_id.as_str(),
                display_name.as_str(),
                provider.as_str(),
                auth_mode.as_str(),
                account_kind.as_str(),
                membership_tier,
                plan_type,
            ) {
                Ok(profile) => profile,
                Err(error) => {
                    return Err(error);
                },
            };
            repository.upsert(
                profile,
                SecretRef::Managed { id: text::concat("managed-", profile_id.as_str()) },
            );
            if repository.config.default_profile_id.is_none() {
                repository.config.default_profile_id = Some(profile_id.clone());
            }
            Ok(ProfileStep::Save(show_id("added profile `", profile_id.as_str())))
        },
        ProfileCommandAction::Edit {
            profile_id,
            display_name,
            refresh_interval_secs,
            membership_tier,
            plan_type,
        } => {
            match repository.find_mut(profile_id.as_str()) {
                Some(configured) => {
                    if let Some(name) = display_name {
                        configured.profile.display_name = name.clone();
                    }
                    if let Some(secs) = refresh_interval_secs {
                        configured.profile.refresh_policy.refresh_interval_secs = *secs;
                    }
                    if membership_tier.is_some() || plan_type.is_some() {
                        configured.profile.membership = build_membership(
                            membership_tier,
                            plan_type,
                        );
                    }
                },
                None => {
                    return Err(AuthError::MissingProfile(profile_id.clone()));
                },
            }
            Ok(ProfileStep::Save(show_id("updated profile `", profile_id.as_str())))
        },
        ProfileCommandAction::SetDefault { profile_id } => {
            if let Err(error) = repository.set_default(profile_id.as_str()) {
                return Err(error);
            }
            Ok(ProfileStep::Save(show_id("default profile set to `", profile_id.as_str())))
        },
        ProfileCommandAction::Remove { profile_id } => {
            let removed = match repository.remove(profile_id.as_str()) {
                Ok(removed) => removed,
                Err(error) => {
                    return Err(error);
                },
            };
            if is_text(&repository.config.default_profile_id, profile_id.as_str()) {
                repository.config.default_profile_id = if repository.config.profiles.len() > 0 {
                    Some(repository.config.profiles[0].profile.id.clone())
                } else {
                    None
                };
            }
            Ok(
                delete_secret(
                    removed.secret_ref,
                    removed.profile.id,
                    show_id("removed profile `", profile_id.as_str()),
                ),
            )
        },
        ProfileCommandAction::Login { profile_id, auth_mode, secret, use_file_store } => {
            if repository.find(profile_id.as_str()).is_none() {
                return Err(AuthError::MissingProfile(profile_id.clone()));
            }
            let payload = match build_auth_secret(auth_mode.as_str(), secret.as_str()) {
                Ok(payload) => payload,
                Err(error) => {
                    return Err(error);
                },
            };
            let mode = match parse_auth_mode(auth_mode.as_str()) {
                Ok(mode) => mode,
                Err(error) => {
                    return Err(error);
                },
            };
            Ok(
                ProfileStep::WriteSecret {
                    profile_id: profile_id.clone(),
                    auth_mode: mode,
                    secret: payload,
                    use_file_store: *use_file_store,
                },
            )
        },
        ProfileCommandAction::Logout { profile_id } => {
            let secret_ref = match repository.find_mut(profile_id.as_str()) {
                Some(configured) => {
                    let secret_ref = configured.secret_ref.clone();
                    configured.secret_ref = SecretRef::Managed {
                        id: text::concat("logged-out-", profile_id.as_str()),
                    };
                    secret_ref
                },
                None => {
                    return Err(AuthError::MissingProfile(profile_id.clone()));
                },
            };
            Ok(
                delete_secret(
                    secret_ref,
                    profile_id.clone(),
                    show_id("cleared login material for `", profile_id.as_str()),
                ),
            )
        },
    }
}

/// The configuration after a login whose secret has been written.
pub open spec fn logged_in(
    config: PlainConfigView,
    i: int,
    auth_mode: AuthMode,
    secret_ref: SecretRefView,
) -> PlainConfigView {
    with_profile_at(
        config,
        i,
        ConfiguredProfileView {
            profile: AccountProfileView { auth_mode, ..config.profiles[i].profile },
            secret_ref,
        },
    )
}

/// The configuration at the end of a login, with the reference to its secret if that was written.
pub open spec fn login_ended(
    config: PlainConfigView,
    profile_id: Seq<char>,
    auth_mode: AuthMode,
    written: Option<SecretRefView>,
) -> PlainConfigView {
    match (written, index_of(config.profiles, profile_id)) {
        (Some(secret_ref), Some(i)) => logged_in(config, i, auth_mode, secret_ref),
        _ => config,
    }
}

/// Ends a login once its secret has been written: the profile keeps the reference to it and the
/// auth mode, and the repository is to be saved. Where the secret was not written, nothing
/// changes.
pub fn finish_login(
    repository: &mut ProfileRepository,
    profile_id: &str,
    auth_mode: AuthMode,
    written: Result<SecretRef, StoreError>,
) -> (r: Result<ProfileCommandOutput, AuthError>)
    ensures
        match (written, index_of(old(repository)@.profiles, profile_id@)) {
            (Err(error), _) => r matches Err(e) && e@ == AuthErrorView::Store(error@),
            (Ok(_), None) => r matches Err(e) && e@ == AuthErrorView::MissingProfile(profile_id@),
            (Ok(_), Some(_)) => r matches Ok(output) && output@ == id_line(
                "stored login material for `"@,
                profile_id@,
            ),
        },
        final(repository)@ == login_ended(
            old(repository)@,
            profile_id@,
            auth_mode,
            match written {
                Ok(secret_ref) => Some(secret_ref@),
                Err(_) => None,
            },
        ),
{
    match written {
        Err(error) => Err(AuthError::Store(error)),
        Ok(secret_ref) => {
            match repository.find_mut(profile_id) {
                Some(configured) => {
                    configured.profile.auth_mode = auth_mode;
                    configured.secret_ref = secret_ref;
                },
                None => {
                    return Err(AuthError::MissingProfile(profile_id.to_owned()));
                },
            }
            Ok(show_id("stored login material for `", profile_id))
        },
    }
}

/// The profile command of a command line, if it names one.
pub fn dispatch_profile_command(command: &Command) -> (r: Option<&ProfileCommand>)
    ensures
        r.deep_view() == (match command@ {
            CommandView::Profile(profile) => Some(profile),
            _ => None,
        }),
{
    match command {
        Command::Profile(profile) => Some(profile),
        _ => None,
    }
}

/// Whether enough of the outcomes of writing secrets, one for each profile, are given: up to the
/// first profile that has no secret or whose secret could not be written.
pub open spec fn writes_suffice(
    profiles: Seq<ConfiguredProfileView>,
    entries: Seq<SecretEntryView>,
    written: Seq<Result<SecretRef, StoreError>>,
    i: nat,
) -> bool
    decreases profiles.len() - i,
{
    ||| i >= profiles.len()
    ||| entry_of(entries, profiles[i as int].profile.id) is None
    ||| i < written.len() && (written[i as int] is Err || writes_suffice(
        profiles,
        entries,
        written,
        i + 1,
    ))
}

/// What a migration comes to from profile `i` on, and the profiles after it: each takes the
/// reference to its written secret, up to the first that has no secret or whose secret could not
/// be written.
pub open spec fn migrated(
    profiles: Seq<ConfiguredProfileView>,
    entries: Seq<SecretEntryView>,
    written: Seq<Result<SecretRef, StoreError>>,
    i: nat,
) -> (Option<AuthErrorView>, Seq<ConfiguredProfileView>)
    decreases profiles.len() - i,
{
    if i >= profiles.len() {
        (None, profiles)
    } else if entry_of(entries, profiles[i as int].profile.id) is None {
        let id = profiles[i as int].profile.id;
        (Some(AuthErrorView::Store(StoreErrorView::MissingSecret(id))), profiles)
    } else {
        match written[i as int] {
            Err(error) => (Some(AuthErrorView::Store(error@)), profiles),
            Ok(secret_ref) => migrated(
                profiles.update(
                    i as int,
                    ConfiguredProfileView { secret_ref: secret_ref@, ..profiles[i as int] },
                ),
                entries,
                written,
                i + 1,
            ),
        }
    }
}

/// The secret that is to be written for a profile in a migration.
pub fn migration_secret<'a>(configured: &ConfiguredProfile, secret_material: &'a SecretMaterial) -> (r:
    Result<&'a AuthSecret, StoreError>)
    ensures
        match entry_of(secret_material@.entries, configured@.profile.id) {
            Some(secret) => r matches Ok(found) && found@ == secret,
            None => r matches Err(error) && error@ == StoreErrorView::MissingSecret(
                configured@.profile.id,
            ),
        },
{
    match secret_material.find(configured.profile.id.as_str()) {
        Some(secret) => Ok(secret),
        None => Err(StoreError::MissingSecret(configured.profile.id.clone())),
    }
}

/// Moves the profiles to the references under which a file store has written their secrets, in
/// their order; `written` holds the outcome of each writing.
pub fn migrate_secret_material_to_file_store(
    repository: &mut ProfileRepository,
    secret_material: &SecretMaterial,
    written: &Vec<Result<SecretRef, StoreError>>,
) -> (r: Result<(), AuthError>)
    requires
        writes_suffice(old(repository)@.profiles, secret_material@.entries, written@, 0),
    ensures
        ({
            let outcome = migrated(
                old(repository)@.profiles,
                secret_material@.entries,
                written@,
                0,
            );
            &&& match (r, outcome.0) {
                (Ok(_), None) => true,
                (Err(error), Some(e)) => error@ == e,
                _ => false,
            }
            &&& final(repository)@ == (PlainConfigView {
                profiles: outcome.1,
                ..old(repository)@
            })
        }),
{
    let ghost entries = secret_material@.entries;
    let ghost start = repository@;
    let ghost outcome = migrated(start.profiles, entries, written@, 0);
    let mut i: usize = 0;
    while i < repository.config.profiles.len()
        invariant
            i <= repository.config.profiles@.len(),
            entries == secret_material@.entries,
            writes_suffice(repository@.profiles, entries, written@, i as nat),
            migrated(repository@.profiles, entries, written@, i as nat) == outcome,
            repository@.version == start.version,
            repository@.default_profile_id == start.default_profile_id,
            outcome == migrated(start.profiles, entries, written@, 0),
            start == old(repository)@,
        decreases repository.config.profiles@.len() - i,
    {
        let ghost all = repository@.profiles;
        assert(all[i as int] == repository.config.profiles@[i as int]@);
        if let Err(error) = migration_secret(&repository.config.profiles[i], secret_material) {
            return Err(AuthError::Store(error));
        }
        match &written[i] {
            Ok(secret_ref) => {
                let configured = ConfiguredProfile {
                    profile: repository.config.profiles[i].profile.clone(),
                    secret_ref: secret_ref.clone(),
                };
                let ghost new = configured@;
                repository.config.profiles.set(i, configured);
                assert(repository@.profiles =~= all.update(i as int, new));
                proof {
                    lemma_writes_suffice_after(all, new, entries, written@, i as int, (i + 1) as nat);
                }
            },
            Err(error) => {
                return Err(AuthError::Store(error.clone()));
            },
        }
        i = i + 1;
    }
    Ok(())
}

/// Whether enough outcomes are given from `from` on does not depend on an earlier profile.
proof fn lemma_writes_suffice_after(
    profiles: Seq<ConfiguredProfileView>,
    new: ConfiguredProfileView,
    entries: Seq<SecretEntryView>,
    written: Seq<Result<SecretRef, StoreError>>,
    i: int,
    from: nat,
)
    requires
        0 <= i < from,
        i < profiles.len(),
    ensures
        writes_suffice(profiles.update(i, new), entries, written, from) == writes_suffice(
            profiles,
            entries,
            written,
            from,
        ),
    decreases profiles.len() - from,
{
    if from < profiles.len() {
        lemma_writes_suffice_after(profiles, new, entries, written, i, from + 1);
    }
}

proof fn lemma_migrated_from(
    profiles: Seq<ConfiguredProfileView>,
    entries: Seq<SecretEntryView>,
    written: Seq<Result<SecretRef, StoreError>>,
    i: nat,
)
    requires
        i <= profiles.len(),
    ensures
        ({
            let (error, after) = migrated(profiles, entries, written, i);
            &&& after.len() == profiles.len()
            &&& forall|j: int|
                0 <= j < profiles.len() ==> (#[trigger] after[j]).profile == profiles[j].profile
            &&& forall|j: int| 0 <= j < i ==> (#[trigger] after[j]) == profiles[j]
            &&& error is None ==> forall|j: int|
                i <= j < profiles.len() ==> written[j] is Ok && (#[trigger] after[j]).secret_ref
                    == written[j]->Ok_0@
        }),
    decreases profiles.len() - i,
{
    if i < profiles.len() && entry_of(entries, profiles[i as int].profile.id) is Some {
        if let Ok(secret_ref) = written[i as int] {
            let next = profiles.update(
                i as int,
                ConfiguredProfileView { secret_ref: secret_ref@, ..profiles[i as int] },
            );
            lemma_migrated_from(next, entries, written, i + 1);
            let after = migrated(next, entries, written, i + 1).1;
            assert(after[i as int] == next[i as int]);
        }
    }
}

/// A migration keeps every profile and its order, and after one that succeeds each profile refers
/// to where its own secret was written.
pub proof fn lemma_migrated(
    profiles: Seq<ConfiguredProfileView>,
    entries: Seq<SecretEntryView>,
    written: Seq<Result<SecretRef, StoreError>>,
)
    ensures
        ({
            let (error, after) = migrated(profiles, entries, written, 0);
            &&& after.len() == profiles.len()
            &&& forall|j: int|
                0 <= j < profiles.len() ==> (#[trigger] after[j]).profile == profiles[j].profile
            &&& error is None ==> forall|j: int|
                0 <= j < profiles.len() ==> written[j] is Ok && (#[trigger] after[j]).secret_ref
                    == written[j]->Ok_0@
        }),
{
    lemma_migrated_from(profiles, entries, written, 0);
}

/// A profile that has been added or replaced is found under its id, and every other profile is
/// found as before.
pub proof fn lemma_upsert_then_find(
    profiles: Seq<ConfiguredProfileView>,
    configured: ConfiguredProfileView,
    other: Seq<char>,
)
    ensures
        index_of(upserted(profiles, configured), configured.profile.id) matches Some(i) && upserted(
            profiles,
            configured,
        )[i] == configured,
        other != configured.profile.id ==> index_of(upserted(profiles, configured), other)
            == index_of(profiles, other),
        other != configured.profile.id && index_of(profiles, other) is Some ==> upserted(
            profiles,
            configured,
        )[index_of(profiles, other).unwrap()] == profiles[index_of(profiles, other).unwrap()],
{
    let id = configured.profile.id;
    let after = upserted(profiles, configured);
    lemma_index_of(profiles, id);
    lemma_index_of(profiles, other);
    lemma_index_of(after, id);
    lemma_index_of(after, other);
    match index_of(profiles, id) {
        Some(i) => {
            assert(after[i] == configured);
        },
        None => {
            assert(after[profiles.len() as int] == configured);
        },
    }
    if other != id {
        match index_of(profiles, other) {
            Some(k) => {
                assert(after[k] == profiles[k]);
                assert forall|j: int| 0 <= j < k implies (#[trigger] after[j]).profile.id
                    != other by {
                    assert(profiles[j].profile.id != other);
                }
                lemma_index_of_first(after, other, k);
            },
            None => {
                if let Some(k) = index_of(after, other) {
                    if k < profiles.len() {
                        assert(profiles[k].profile.id != other);
                    }
                }
            },
        }
    }
}

/// A command that fails leaves the configuration as it was.
pub proof fn lemma_failed_command_changes_nothing(
    action: ProfileCommandActionView,
    config: PlainConfigView,
)
    ensures
        profile_step(action, config).0 is Err ==> profile_step(action, config).1 == config,
{
}

/// Whether the default profile, if there is one, is configured.
pub open spec fn default_is_configured(config: PlainConfigView) -> bool {
    config.default_profile_id matches Some(id) ==> index_of(config.profiles, id) is Some
}

/// Whether no two profiles share an id.
pub open spec fn ids_distinct(profiles: Seq<ConfiguredProfileView>) -> bool {
    forall|i: int, j: int|
        0 <= i < j < profiles.len() ==> (#[trigger] profiles[i]).profile.id != (
        #[trigger] profiles[j]).profile.id
}

/// No profile command makes a profile the default that is not configured.
pub proof fn lemma_default_stays_configured(
    action: ProfileCommandActionView,
    config: PlainConfigView,
)
    requires
        default_is_configured(config),
    ensures
        default_is_configured(profile_step(action, config).1),
{
    let after = profile_step(action, config).1;
    if let Some(id) = after.default_profile_id {
        lemma_index_of(config.profiles, id);
        lemma_index_of(after.profiles, id);
        match action {
            ProfileCommandActionView::Add { profile_id, auth_mode, .. } => {
                if auth_mode_named(auth_mode) is Some {
                    lemma_index_of(config.profiles, profile_id);
                    if let Some(i) = index_of(config.profiles, profile_id) {
                        assert(after.profiles[i].profile.id == profile_id);
                    } else {
                        assert(after.profiles[config.profiles.len() as int].profile.id
                            == profile_id);
                    }
                    if let Some(k) = index_of(config.profiles, id) {
                        assert(after.profiles[k].profile.id == id);
                    }
                }
            },
            ProfileCommandActionView::Edit { profile_id, .. } => {
                lemma_index_of(config.profiles, profile_id);
                let k = index_of(config.profiles, id).unwrap();
                assert(after.profiles[k].profile.id == id);
            },
            ProfileCommandActionView::Logout { profile_id } => {
                lemma_index_of(config.profiles, profile_id);
                let k = index_of(config.profiles, id).unwrap();
                assert(after.profiles[k].profile.id == id);
            },
            ProfileCommandActionView::Remove { profile_id } => {
                lemma_index_of(config.profiles, profile_id);
                if let Some(i) = index_of(config.profiles, profile_id) {
                    if config.default_profile_id == Some(profile_id) {
                        assert(after.profiles[0].profile.id == id);
                    } else {
                        let k = index_of(config.profiles, id).unwrap();
                        if k < i {
                            assert(after.profiles[k] == config.profiles[k]);
                        } else {
                            assert(after.profiles[k - 1] == config.profiles[k]);
                        }
                    }
                }
            },
            _ => {},
        }
    }
}

/// Profile commands keep the ids of the profiles distinct.
pub proof fn lemma_ids_stay_distinct(action: ProfileCommandActionView, config: PlainConfigView)
    requires
        ids_distinct(config.profiles),
    ensures
        ids_distinct(profile_step(action, config).1.profiles),
{
    let before = config.profiles;
    let after = profile_step(action, config).1.profiles;
    assert forall|i: int, j: int| 0 <= i < j < after.len() implies (#[trigger] after[i]).profile.id
        != (#[trigger] after[j]).profile.id by {
        match action {
            ProfileCommandActionView::Add { profile_id, auth_mode, .. } => {
                if auth_mode_named(auth_mode) is Some {
                    lemma_index_of(before, profile_id);
                    if let Some(k) = index_of(before, profile_id) {
                        assert(after[i].profile.id == before[i].profile.id);
                        assert(after[j].profile.id == before[j].profile.id);
                    } else {
                        assert(after[i] == before[i]);
                        if j < before.len() {
                            assert(after[j] == before[j]);
                        }
                    }
                }
            },
            ProfileCommandActionView::Remove { profile_id } => {
                lemma_index_of(before, profile_id);
                if let Some(k) = index_of(before, profile_id) {
                    let a = if i < k {
                        i
                    } else {
                        i + 1
                    };
                    let b = if j < k {
                        j
                    } else {
                        j + 1
                    };
                    assert(after[i] == before[a] && after[j] == before[b]);
                }
            },
            ProfileCommandActionView::Edit { profile_id, .. } => {
                lemma_index_of(before, profile_id);
                assert(after[i].profile.id == before[i].profile.id);
                assert(after[j].profile.id == before[j].profile.id);
            },
            ProfileCommandActionView::Logout { profile_id } => {
                lemma_index_of(before, profile_id);
                assert(after[i].profile.id == before[i].profile.id);
                assert(after[j].profile.id == before[j].profile.id);
            },
            _ => {},
        }
    }
}

/// The configuration after a whole login: after the command, and, where that asks for a secret to be
/// written, after the end of the login, with the reference that the store gives for the profile. The
/// secret is either stored or not.
pub open spec fn login_configuration(
    config: PlainConfigView,
    action: ProfileCommandActionView,
    secrets_dir: Seq<u8>,
    master_key_path: Seq<u8>,
    service: Seq<char>,
    stored: bool,
) -> PlainConfigView {
    let (outcome, after) = profile_step(action, config);
    match outcome {
        Ok(ProfileStepView::WriteSecret { profile_id, auth_mode, use_file_store, .. }) => login_ended(
            after,
            profile_id,
            auth_mode,
            if !stored {
                None
            } else if use_file_store {
                Some(written_ref(secrets_dir, master_key_path, profile_id))
            } else {
                Some(SecretRefView::Keychain { service, account: profile_id })
            },
        ),
        _ => after,
    }
}

/// Nothing of a secret comes into the configuration: whatever secret a login is given, the
/// configuration is the same after the command and at the end of the login.
pub proof fn lemma_configuration_holds_no_secret(
    config: PlainConfigView,
    profile_id: Seq<char>,
    auth_mode: Seq<char>,
    secret: Seq<char>,
    other_secret: Seq<char>,
    use_file_store: bool,
    secrets_dir: Seq<u8>,
    master_key_path: Seq<u8>,
    service: Seq<char>,
    stored: bool,
)
    ensures
        ({
            let login = ProfileCommandActionView::Login {
                profile_id,
                auth_mode,
                secret,
                use_file_store,
            };
            let other_login = ProfileCommandActionView::Login {
                profile_id,
                auth_mode,
                secret: other_secret,
                use_file_store,
            };
            &&& profile_step(login, config).1 == profile_step(other_login, config).1
            &&& login_configuration(config, login, secrets_dir, master_key_path, service, stored)
                == login_configuration(
                config,
                other_login,
                secrets_dir,
                master_key_path,
                service,
                stored,
            )
        }),
{
}

/// The word that is shown for an auth mode is the one that is read as it.
pub proof fn lemma_auth_mode_is_read_back(mode: AuthMode)
    ensures
        auth_mode_named(auth_mode_text(mode)) == Some(mode),
{
    reveal_strlit("browser");
    reveal_strlit("headless");
    reveal_strlit("api_key");
    assert("browser"@.len() == 7 && "headless"@.len() == 8 && "api_key"@.len() == 7);
    assert("browser"@[0] == 'b' && "api_key"@[0] == 'a');
}

/// Logging out after a login leaves the profile without a reference to a stored secret, and the
/// secret that the login wrote is the one that is deleted.
pub proof fn lemma_logout_undoes_login(
    config: PlainConfigView,
    profile_id: Seq<char>,
    auth_mode: AuthMode,
    secret_ref: SecretRefView,
)
    requires
        index_of(config.profiles, profile_id) is Some,
        !(secret_ref is Managed),
    ensures
        ({
            let i = index_of(config.profiles, profile_id).unwrap();
            let (outcome, after) = profile_step(
                ProfileCommandActionView::Logout { profile_id },
                logged_in(config, i, auth_mode, secret_ref),
            );
            &&& outcome matches Ok(ProfileStepView::DeleteSecret { secret_ref: deleted, .. })
                && deleted == secret_ref
            &&& after.profiles[i].secret_ref is Managed
        }),
{
    lemma_index_of(config.profiles, profile_id);
    let i = index_of(config.profiles, profile_id).unwrap();
    let during = logged_in(config, i, auth_mode, secret_ref);
    assert forall|j: int| 0 <= j < i implies (#[trigger] during.profiles[j]).profile.id
        != profile_id by {
        assert(config.profiles[j].profile.id != profile_id);
    }
    lemma_index_of_first(during.profiles, profile_id, i);
}

/// An edit changes nothing that it does not name. Of the profile it changes the name, the interval
/// and the membership, each only where it is given a new one; a plan type or a tier alone is enough
/// to replace the membership. Every other profile, and all else, stays.
pub proof fn lemma_edit_changes_only_what_it_names(
    profile_id: Seq<char>,
    display_name: Option<Seq<char>>,
    refresh_interval_secs: Option<u64>,
    membership_tier: Option<Seq<char>>,
    plan_type: Option<Seq<char>>,
    config: PlainConfigView,
    i: int,
)
    requires
        index_of(config.profiles, profile_id) == Some(i),
    ensures
        ({
            let (outcome, after) = profile_step(
                ProfileCommandActionView::Edit {
                    profile_id,
                    display_name,
                    refresh_interval_secs,
                    membership_tier,
                    plan_type,
                },
                config,
            );
            let (old, new) = (config.profiles[i].profile, after.profiles[i].profile);
            &&& outcome == Ok::<ProfileStepView, AuthErrorView>(
                ProfileStepView::Save(seq!["updated profile `"@ + profile_id + "`"@]),
            )
            &&& display_name is None ==> new.display_name == old.display_name
            &&& display_name matches Some(name) ==> new.display_name == name
            &&& refresh_interval_secs is None ==> new.refresh_policy.refresh_interval_secs
                == old.refresh_policy.refresh_interval_secs
            &&& refresh_interval_secs matches Some(secs)
                ==> new.refresh_policy.refresh_interval_secs == secs
            &&& membership_tier is None && plan_type is None ==> new.membership == old.membership
            &&& membership_tier is Some || plan_type is Some ==> new.membership
                == membership_named(membership_tier, plan_type)
            &&& new.id == old.id
            &&& new.provider == old.provider
            &&& new.auth_mode == old.auth_mode
            &&& new.account_kind == old.account_kind
            &&& new.health == old.health
            &&& new.refresh_policy.allow_manual_refresh == old.refresh_policy.allow_manual_refresh
            &&& new.future_switch_bridge == old.future_switch_bridge
            &&& after.profiles[i].secret_ref == config.profiles[i].secret_ref
            &&& others_stay(config, after, i)
            &&& after.default_profile_id == config.default_profile_id
        }),
{
    lemma_index_of(config.profiles, profile_id);
}

/// Whether two configurations have the same profiles, in the same places, but for the one at `i`.
pub open spec fn others_stay(before: PlainConfigView, after: PlainConfigView, i: int) -> bool {
    &&& after.version == before.version
    &&& after.profiles.len() == before.profiles.len()
    &&& forall|j: int|
        0 <= j < before.profiles.len() && j != i ==> #[trigger] after.profiles[j]
            == before.profiles[j]
}

/// A profile that is added has what it was given, is healthy, refreshed every five minutes and on
/// demand, and has no secret of its own yet. It takes the place of the profile with its id, or the
/// last place; it becomes the default only where there was none.
pub proof fn lemma_added_profile(
    profile_id: Seq<char>,
    display_name: Seq<char>,
    auth_mode: Seq<char>,
    account_kind: Seq<char>,
    provider: Seq<char>,
    membership_tier: Option<Seq<char>>,
    plan_type: Option<Seq<char>>,
    config: PlainConfigView,
    mode: AuthMode,
)
    requires
        auth_mode_named(auth_mode) == Some(mode),
    ensures
        ({
            let (outcome, after) = profile_step(
                ProfileCommandActionView::Add {
                    profile_id,
                    display_name,
                    auth_mode,
                    account_kind,
                    provider,
                    membership_tier,
                    plan_type,
                },
                config,
            );
            let place = match index_of(config.profiles, profile_id) {
                Some(i) => i,
                None => config.profiles.len() as int,
            };
            let added = after.profiles[place];
            &&& outcome == Ok::<ProfileStepView, AuthErrorView>(
                ProfileStepView::Save(seq!["added profile `"@ + profile_id + "`"@]),
            )
            &&& added.profile.id == profile_id
            &&& added.profile.display_name == display_name
            &&& added.profile.auth_mode == mode
            &&& added.profile.account_kind == account_kind_named(account_kind)
            &&& added.profile.provider == provider_named(provider)
            &&& added.profile.membership == membership_named(membership_tier, plan_type)
            &&& added.profile.health is Healthy
            &&& added.profile.refresh_policy.refresh_interval_secs == 300
            &&& added.profile.refresh_policy.allow_manual_refresh
            &&& added.profile.future_switch_bridge.opencode_profile_id is None
            &&& added.profile.future_switch_bridge.codex_account_id is None
            &&& added.secret_ref matches SecretRefView::Managed { id } && id == "managed-"@
                + profile_id
            &&& index_of(config.profiles, profile_id) is Some ==> others_stay(config, after, place)
            &&& index_of(config.profiles, profile_id) is None ==> after.profiles.len()
                == config.profiles.len() + 1 && after.profiles.take(config.profiles.len() as int)
                == config.profiles
            &&& config.default_profile_id is Some ==> after.default_profile_id
                == config.default_profile_id
            &&& config.default_profile_id is None ==> after.default_profile_id == Some(profile_id)
            &&& after.version == config.version
        }),
{
    lemma_index_of(config.profiles, profile_id);
    let after = profile_step(
        ProfileCommandActionView::Add {
            profile_id,
            display_name,
            auth_mode,
            account_kind,
            provider,
            membership_tier,
            plan_type,
        },
        config,
    ).1;
    if index_of(config.profiles, profile_id) is None {
        assert(after.profiles.take(config.profiles.len() as int) =~= config.profiles);
    }
}

/// A profile that is removed is gone, and every other one stays, in their order. A default that is
/// removed passes to the first profile left, if there is one; any other default stays. Where a store
/// keeps the profile's secret, that secret is to be deleted.
pub proof fn lemma_removed_profile(profile_id: Seq<char>, config: PlainConfigView, i: int)
    requires
        index_of(config.profiles, profile_id) == Some(i),
    ensures
        ({
            let (outcome, after) = profile_step(
                ProfileCommandActionView::Remove { profile_id },
                config,
            );
            let removed = config.profiles[i];
            let said = seq!["removed profile `"@ + profile_id + "`"@];
            &&& after.profiles.len() == config.profiles.len() - 1
            &&& forall|j: int| 0 <= j < i ==> #[trigger] after.profiles[j] == config.profiles[j]
            &&& forall|j: int|
                i <= j < after.profiles.len() ==> #[trigger] after.profiles[j] == config.profiles[j
                    + 1]
            &&& config.default_profile_id != Some(profile_id) ==> after.default_profile_id
                == config.default_profile_id
            &&& config.default_profile_id == Some(profile_id) && config.profiles.len() > 1
                ==> after.default_profile_id == Some(after.profiles[0].profile.id)
            &&& config.default_profile_id == Some(profile_id) && config.profiles.len() == 1
                ==> after.default_profile_id is None
            &&& after.version == config.version
            &&& match outcome {
                Ok(ProfileStepView::Save(output)) => removed.secret_ref is Managed && output == said,
                Ok(ProfileStepView::DeleteSecret { secret_ref, profile_id: id, output }) => {
                    &&& !(removed.secret_ref is Managed)
                    &&& secret_ref == removed.secret_ref
                    &&& id == profile_id
                    &&& output == said
                },
                _ => false,
            }
        }),
{
    lemma_index_of(config.profiles, profile_id);
}

/// A logout takes from its profile the reference to the secret and nothing else; where a store keeps
/// the secret, that secret is to be deleted.
pub proof fn lemma_logged_out_profile(profile_id: Seq<char>, config: PlainConfigView, i: int)
    requires
        index_of(config.profiles, profile_id) == Some(i),
    ensures
        ({
            let (outcome, after) = profile_step(
                ProfileCommandActionView::Logout { profile_id },
                config,
            );
            let said = seq!["cleared login material for `"@ + profile_id + "`"@];
            let held = config.profiles[i].secret_ref;
            &&& after.profiles[i].profile == config.profiles[i].profile
            &&& after.profiles[i].secret_ref matches SecretRefView::Managed { id } && id
                == "logged-out-"@ + profile_id
            &&& others_stay(config, after, i)
            &&& after.default_profile_id == config.default_profile_id
            &&& match outcome {
                Ok(ProfileStepView::Save(output)) => held is Managed && output == said,
                Ok(ProfileStepView::DeleteSecret { secret_ref, profile_id: id, output }) => {
                    &&& !(held is Managed)
                    &&& secret_ref == held
                    &&& id == profile_id
                    &&& output == said
                },
                _ => false,
            }
        }),
{
    lemma_index_of(config.profiles, profile_id);
}

/// Making a profile the default changes the default and nothing else.
pub proof fn lemma_new_default(profile_id: Seq<char>, config: PlainConfigView)
    requires
        index_of(config.profiles, profile_id) is Some,
    ensures
        ({
            let (outcome, after) = profile_step(
                ProfileCommandActionView::SetDefault { profile_id },
                config,
            );
            &&& outcome == Ok::<ProfileStepView, AuthErrorView>(
                ProfileStepView::Save(seq!["default profile set to `"@ + profile_id + "`"@]),
            )
            &&& after.default_profile_id == Some(profile_id)
            &&& after.profiles == config.profiles
            &&& after.version == config.version
        }),
{
}

/// A login asks for its own secret to be written, in the form that its auth mode takes, where it asks
/// for it to be kept; until then nothing changes.
pub proof fn lemma_login_writes_its_secret(
    profile_id: Seq<char>,
    auth_mode: Seq<char>,
    secret: Seq<char>,
    use_file_store: bool,
    config: PlainConfigView,
    mode: AuthMode,
)
    requires
        index_of(config.profiles, profile_id) is Some,
        auth_mode_named(auth_mode) == Some(mode),
    ensures
        ({
            let (outcome, after) = profile_step(
                ProfileCommandActionView::Login { profile_id, auth_mode, secret, use_file_store },
                config,
            );
            &&& after == config
            &&& match outcome {
                Ok(
                    ProfileStepView::WriteSecret {
                        profile_id: id,
                        auth_mode: written_mode,
                        secret: written,
                        use_file_store: in_file,
                    },
                ) => {
                    &&& id == profile_id
                    &&& written_mode == mode
                    &&& in_file == use_file_store
                    &&& match written {
                        AuthSecretView::BrowserSession { session_payload } => mode is Browser
                            && session_payload == secret,
                        AuthSecretView::HeadlessSession { session_payload } => mode is Headless
                            && session_payload == secret,
                        AuthSecretView::ApiKey { api_key } => mode is ApiKey && api_key == secret,
                    }
                },
                _ => false,
            }
        }),
{
}

/// The end of a login gives its profile the auth mode and the reference to the secret that was
/// written, and changes nothing else; where none was written, nothing changes.
pub proof fn lemma_ended_login(
    config: PlainConfigView,
    profile_id: Seq<char>,
    auth_mode: AuthMode,
    written: Option<SecretRefView>,
    i: int,
)
    requires
        index_of(config.profiles, profile_id) == Some(i),
    ensures
        ({
            let after = login_ended(config, profile_id, auth_mode, written);
            let (old, new) = (config.profiles[i], after.profiles[i]);
            &&& written is None ==> after == config
            &&& written matches Some(secret_ref) ==> {
                &&& new.secret_ref == secret_ref
                &&& new.profile.auth_mode == auth_mode
                &&& new.profile == (AccountProfileView { auth_mode, ..old.profile })
                &&& others_stay(config, after, i)
                &&& after.default_profile_id == config.default_profile_id
            }
        }),
{
    lemma_index_of(config.profiles, profile_id);
}

/// The profile that an action is about, but for `list` and `add`.
pub open spec fn target_of(action: ProfileCommandActionView) -> Option<Seq<char>> {
    match action {
        ProfileCommandActionView::Edit { profile_id, .. } => Some(profile_id),
        ProfileCommandActionView::SetDefault { profile_id } => Some(profile_id),
        ProfileCommandActionView::Remove { profile_id } => Some(profile_id),
        ProfileCommandActionView::Login { profile_id, .. } => Some(profile_id),
        ProfileCommandActionView::Logout { profile_id } => Some(profile_id),
        _ => None,
    }
}

/// When a profile command fails: for a profile that is not configured, which is named; or else for an
/// auth mode that is none, which is named. It fails for nothing else.
pub proof fn lemma_when_a_command_fails(action: ProfileCommandActionView, config: PlainConfigView)
    ensures
        ({
            let outcome = profile_step(action, config).0;
            let unknown = target_of(action) matches Some(id) && index_of(config.profiles, id)
                is None;
            let mode = match action {
                ProfileCommandActionView::Add { auth_mode, .. } => Some(auth_mode),
                ProfileCommandActionView::Login { auth_mode, .. } => Some(auth_mode),
                _ => None,
            };
            let misnamed = mode matches Some(name) && name != "browser"@ && name != "headless"@
                && name != "api_key"@;
            match outcome {
                Err(AuthErrorView::MissingProfile(id)) => unknown && target_of(action) == Some(id),
                Err(AuthErrorView::InvalidAuthMode(name)) => !unknown && misnamed && mode == Some(
                    name,
                ),
                Err(_) => false,
                Ok(_) => !unknown && !misnamed,
            }
        }),
{
}

/// The list has one line for each profile, in their order: its id, name, auth mode and kind, the
/// default one marked by a star. Listing changes nothing.
pub proof fn lemma_listed_profiles(config: PlainConfigView, i: int)
    requires
        0 <= i < config.profiles.len(),
    ensures
        ({
            let (outcome, after) = profile_step(ProfileCommandActionView::List, config);
            let profile = config.profiles[i].profile;
            &&& after == config
            &&& match outcome {
                Ok(ProfileStepView::Show(lines)) => {
                    &&& lines.len() == config.profiles.len()
                    &&& lines[i] == (if config.default_profile_id == Some(profile.id) {
                        "*"@
                    } else {
                        " "@
                    }) + " "@ + profile.id + " | "@ + profile.display_name + " | "@
                        + auth_mode_text(profile.auth_mode) + " | "@ + account_kind_text(
                        profile.account_kind,
                    )
                },
                _ => false,
            }
        }),
{
}

/// Each auth mode has its own word, and each word stands for one mode.
pub proof fn lemma_auth_mode_words(mode: AuthMode, name: Seq<char>)
    ensures
        auth_mode_text(mode) == "browser"@ <==> mode is Browser,
        auth_mode_text(mode) == "headless"@ <==> mode is Headless,
        auth_mode_text(mode) == "api_key"@ <==> mode is ApiKey,
        auth_mode_named(name) == Some(mode) <==> name == auth_mode_text(mode),
{
    reveal_strlit("browser");
    reveal_strlit("headless");
    reveal_strlit("api_key");
    assert("browser"@.len() == 7 && "headless"@.len() == 8 && "api_key"@.len() == 7);
    assert("browser"@[0] == 'b' && "api_key"@[0] == 'a');
}

/// The names of providers and of kinds of accounts: two of each are known; every other name is kept
/// as it was given.
pub proof fn lemma_known_names(name: Seq<char>)
    ensures
        provider_named(name) is CodexProtocol <==> name == "codex_protocol"@,
        provider_named(name) is OpenAiApiUsage <==> name == "openai_api_usage"@,
        provider_named(name) matches ProviderKindView::Other(kept) ==> kept == name,
        account_kind_named(name) is Chatgpt <==> name == "chatgpt"@,
        account_kind_named(name) is ApiKey <==> name == "api_key"@,
        account_kind_named(name) matches AccountKindView::Other(kept) ==> kept == name,
{
    reveal_strlit("codex_protocol");
    reveal_strlit("openai_api_usage");
    reveal_strlit("chatgpt");
    reveal_strlit("api_key");
    assert("codex_protocol"@.len() == 14 && "openai_api_usage"@.len() == 16);
    assert("chatgpt"@[0] == 'c' && "api_key"@[0] == 'a');
}

/// Each kind of account has its own word.
pub proof fn lemma_account_kind_words(kind: AccountKindView)
    ensures
        account_kind_text(kind) == "chatgpt"@ <==> kind is Chatgpt,
        account_kind_text(kind) == "api_key"@ <==> kind is ApiKey,
        account_kind_text(kind) == "other"@ <==> kind is Other,
{
    reveal_strlit("chatgpt");
    reveal_strlit("api_key");
    reveal_strlit("other");
    assert("chatgpt"@.len() == 7 && "api_key"@.len() == 7 && "other"@.len() == 5);
    assert("chatgpt"@[0] == 'c' && "api_key"@[0] == 'a');
}

/// A membership that is written by hand: a tier that is named counts before that of the plan type,
/// and the plan type is kept as it was given. Without a tier, a missing or blank plan type gives
/// none.
pub proof fn lemma_membership_by_hand(tier: Option<Seq<char>>, plan_type: Option<Seq<char>>)
    ensures
        match membership_named(tier, plan_type) {
            Some(membership) => {
                &&& membership.raw_plan_type == plan_type
                &&& tier matches Some(name) ==> {
                    &&& membership.tier is Free <==> name == "free"@
                    &&& membership.tier is Go <==> name == "go"@
                    &&& membership.tier is Plus <==> name == "plus"@
                    &&& membership.tier is Pro <==> name == "pro"@
                    &&& membership.tier is Team <==> name == "team"@
                    &&& membership.tier is Edu <==> name == "edu"@
                    &&& membership.tier is Business <==> name == "business"@
                    &&& membership.tier is Enterprise <==> name == "enterprise"@
                    &&& membership.tier is Unknown <==> name == "unknown"@
                }
                &&& tier is None ==> (membership_of(plan_type) matches Some(own) && own.tier
                    == membership.tier)
            },
            None => tier is None && (plan_type matches Some(plan) ==> text::trimmed(plan).len()
                == 0),
        },
{
    reveal_strlit("free");
    reveal_strlit("go");
    reveal_strlit("plus");
    reveal_strlit("pro");
    reveal_strlit("team");
    reveal_strlit("edu");
    reveal_strlit("business");
    reveal_strlit("enterprise");
    reveal_strlit("unknown");
    assert("free"@.len() == 4 && "go"@.len() == 2 && "plus"@.len() == 4 && "pro"@.len() == 3);
    assert("team"@.len() == 4 && "edu"@.len() == 3 && "business"@.len() == 8);
    assert("enterprise"@.len() == 10 && "unknown"@.len() == 7);
    assert("free"@[0] == 'f' && "plus"@[0] == 'p' && "team"@[0] == 't');
    assert("pro"@[0] == 'p' && "edu"@[0] == 'e');
}

proof fn lemma_migration_stops_from(
    profiles: Seq<ConfiguredProfileView>,
    entries: Seq<SecretEntryView>,
    written: Seq<Result<SecretRef, StoreError>>,
    i: nat,
)
    requires
        i <= profiles.len(),
    ensures
        ({
            let (error, after) = migrated(profiles, entries, written, i);
            error matches Some(e) ==> exists|k: int|
                {
                    &&& i <= k < profiles.len()
                    &&& #[trigger] migration_stops_at(profiles, entries, written, e, k)
                    &&& after.len() == profiles.len()
                    &&& forall|j: int| k <= j < profiles.len() ==> #[trigger] after[j] == profiles[j]
                    &&& forall|j: int|
                        i <= j < k ==> written[j] is Ok && (#[trigger] after[j]).secret_ref
                            == written[j]->Ok_0@
                }
        }),
    decreases profiles.len() - i,
{
    let (error, after) = migrated(profiles, entries, written, i);
    if i < profiles.len() {
        if entry_of(entries, profiles[i as int].profile.id) is None || written[i as int] is Err {
            assert(migration_stops_at(profiles, entries, written, error.unwrap(), i as int));
        } else {
            let next = profiles.update(
                i as int,
                ConfiguredProfileView {
                    secret_ref: written[i as int]->Ok_0@,
                    ..profiles[i as int]
                },
            );
            lemma_migration_stops_from(next, entries, written, i + 1);
            lemma_migrated_from(next, entries, written, i + 1);
            if let Some(e) = error {
                let k = choose|k: int|
                    {
                        &&& i + 1 <= k < next.len()
                        &&& #[trigger] migration_stops_at(next, entries, written, e, k)
                        &&& after.len() == next.len()
                        &&& forall|j: int| k <= j < next.len() ==> #[trigger] after[j] == next[j]
                        &&& forall|j: int|
                            i + 1 <= j < k ==> written[j] is Ok && (#[trigger] after[j]).secret_ref
                                == written[j]->Ok_0@
                    };
                assert(next[k] == profiles[k]);
                assert(migration_stops_at(profiles, entries, written, e, k));
                assert(after[i as int] == next[i as int]);
            }
        }
    }
}

/// Whether a migration stops at profile `k` with an error: the profile has no secret, and is named, or
/// its secret could not be written.
pub open spec fn migration_stops_at(
    profiles: Seq<ConfiguredProfileView>,
    entries: Seq<SecretEntryView>,
    written: Seq<Result<SecretRef, StoreError>>,
    error: AuthErrorView,
    k: int,
) -> bool {
    let id = profiles[k].profile.id;
    if entry_of(entries, id) is None {
        error == AuthErrorView::Store(StoreErrorView::MissingSecret(id))
    } else {
        written[k] matches Err(e) && error == AuthErrorView::Store(e@)
    }
}

/// A migration that fails stops at the first profile that has no secret or whose secret could not be
/// written: those before it have moved to where their secrets were written, it and those behind it
/// are as they were.
pub proof fn lemma_migration_stops(
    profiles: Seq<ConfiguredProfileView>,
    entries: Seq<SecretEntryView>,
    written: Seq<Result<SecretRef, StoreError>>,
)
    ensures
        ({
            let (error, after) = migrated(profiles, entries, written, 0);
            error matches Some(e) ==> exists|k: int|
                {
                    &&& 0 <= k < profiles.len()
                    &&& #[trigger] migration_stops_at(profiles, entries, written, e, k)
                    &&& forall|j: int| k <= j < profiles.len() ==> #[trigger] after[j] == profiles[j]
                    &&& forall|j: int|
                        0 <= j < k ==> written[j] is Ok && (#[trigger] after[j]).secret_ref
                            == written[j]->Ok_0@
                }
        }),
{
    lemma_migration_stops_from(profiles, entries, written, 0);
}

/// The profile that is found is the first with the id, and none is found only where none has it.
pub proof fn lemma_found_profile(
    repository: ProfileRepository,
    profile_id: &str,
    r: Option<&ConfiguredProfile>,
)
    requires
        call_ensures(ProfileRepository::find, (&repository, profile_id), r),
    ensures
        match r {
            Some(found) => exists|i: int|
                0 <= i < repository@.profiles.len() && #[trigger] repository@.profiles[i] == found@
                    && found@.profile.id == profile_id@ && forall|j: int|
                    0 <= j < i ==> (#[trigger] repository@.profiles[j]).profile.id != profile_id@,
            None => forall|i: int|
                0 <= i < repository@.profiles.len() ==> (
                #[trigger] repository@.profiles[i]).profile.id != profile_id@,
        },
{
    lemma_index_of(repository@.profiles, profile_id@);
}

/// The secret that a migration writes for a profile is that of its own entry; a profile without one is
/// named.
pub proof fn lemma_migrated_secret<'a>(
    configured: ConfiguredProfile,
    material: &'a SecretMaterial,
    r: Result<&'a AuthSecret, StoreError>,
)
    requires
        call_ensures(migration_secret, (&configured, material), r),
    ensures
        match r {
            Ok(secret) => entry_of(material@.entries, configured.profile.id@) == Some(secret@),
            Err(StoreError::MissingSecret(id)) => id@ == configured.profile.id@ && entry_of(
                material@.entries,
                configured.profile.id@,
            ) is None,
            Err(_) => false,
        },
{
}

/// The text of an error begins with what kind it is and holds all that is known of it.
pub proof fn lemma_error_texts(error: AuthErrorView)
    ensures
        match error {
            AuthErrorView::Io(s) => error.text() == "io failure: "@ + s,
            AuthErrorView::ConfigToml(s) => error.text() == "config parse failure: "@ + s,
            AuthErrorView::ConfigTomlWrite(s) => error.text() == "config render failure: "@ + s,
            AuthErrorView::SecretJson(s) => error.text() == "secret material parse failure: "@ + s,
            AuthErrorView::Store(e) => error.text() == "store failure: "@ + e.text(),
            AuthErrorView::MissingProfile(s) => error.text() == "profile `"@ + s + "` not found"@,
            AuthErrorView::InvalidAuthMode(s) => error.text() == "invalid auth mode `"@ + s + "`"@,
        },
{
}

/// The profile command that is run is the one that the command line names, and only such a one is.
pub proof fn lemma_dispatched(command: Command, r: Option<&ProfileCommand>)
    requires
        call_ensures(dispatch_profile_command, (&command,), r),
    ensures
        r is Some <==> command is Profile,
        command matches Command::Profile(named) ==> r->0@ == named@,
{
}

} // verus!
