//! The refresh of profiles: what is known of each, when a refresh may start, what success and
//! failure change, and the run over all configured profiles.
use vstd::prelude::*;
use vstd::string::*;

use crate::config::{ConfiguredProfile, ConfiguredProfileView};
use crate::domain::{
    membership_of, profile_of_identity, AccountHealth, AccountProfile, AccountProfileView,
    FutureSwitchBridgeView,
    ProviderKind, ProviderKindView, QuotaSnapshot, QuotaWindowView, RefreshPolicy, UsageFamily,
};
use crate::provider_codex::{
    CodexProviderError, CodexProviderErrorView, CodexProviderSnapshot, CodexProviderSnapshotView,
};
use crate::string_map::{self, lookup, ordered, put, StringMap};
use crate::text::{self, decimal, has_part, lower, trimmed};

verus! {

#[derive(Debug, Clone, Copy, PartialEq, Eq, Structural)]
pub enum RefreshStatus {
    Healthy,
    Stale,
    AuthRequired,
    RateLimited,
    Error,
    Refreshing,
}

/// What is known of a profile: its metadata, the last good snapshot, and how the last refresh
/// ended.
#[derive(Debug, PartialEq)]
pub struct RefreshedProfile {
    pub profile: AccountProfile,
    pub snapshot: Option<QuotaSnapshot>,
    pub usage_family: UsageFamily,
    pub status: RefreshStatus,
    pub last_error: Option<String>,
    pub last_updated_at: Option<u64>,
}

/// The model of a [`RefreshedProfile`].
#[verifier::ext_equal]
pub struct RefreshedProfileView {
    pub profile: AccountProfileView,
    pub snapshot: Option<Seq<QuotaWindowView>>,
    pub usage_family: UsageFamily,
    pub status: RefreshStatus,
    pub last_error: Option<Seq<char>>,
    pub last_updated_at: Option<u64>,
}

impl View for RefreshedProfile {
    type V = RefreshedProfileView;

    open spec fn view(&self) -> RefreshedProfileView {
        RefreshedProfileView {
            profile: self.profile@,
            snapshot: self.snapshot.deep_view(),
            usage_family: self.usage_family,
            status: self.status,
            last_error: self.last_error.deep_view(),
            last_updated_at: self.last_updated_at,
        }
    }
}

impl DeepView for RefreshedProfile {
    type V = RefreshedProfileView;

    open spec fn deep_view(&self) -> RefreshedProfileView {
        self@
    }
}

impl Clone for RefreshedProfile {
    fn clone(&self) -> (r: Self)
        ensures
            r@ == self@,
    {
        let snapshot: Option<QuotaSnapshot> = match &self.snapshot {
            Some(snapshot) => Some(snapshot.clone()),
            None => None,
        };
        RefreshedProfile {
            profile: self.profile.clone(),
            snapshot,
            usage_family: self.usage_family,
            status: self.status,
            last_error: self.last_error.clone(),
            last_updated_at: self.last_updated_at,
        }
    }
}

/// A refresh that is asked for: by its schedule, or forced by hand.
#[derive(Debug, Clone, PartialEq, Eq)]
pub struct RefreshRequest {
    pub profile_id: String,
    pub now_epoch_secs: u64,
    pub force: bool,
}

/// Whether a refresh starts, and why.
#[derive(Debug, Clone, PartialEq, Eq)]
pub struct RefreshDecision {
    pub should_start: bool,
    pub reason: String,
}

/// The state of all profiles, by their ids.
#[derive(Debug, PartialEq)]
pub struct RefreshState {
    pub profiles: StringMap<RefreshedProfile>,
}

impl Clone for RefreshState {
    fn clone(&self) -> (r: Self)
        ensures
            r@ == self@,
    {
        let r = RefreshState { profiles: self.profiles.clone() };
        proof {
            string_map::lemma_keys_and_values(self.profiles);
            string_map::lemma_keys_and_values(r.profiles);
            assert forall|i: int| 0 <= i < self@.len() implies r@[i] == self@[i] by {
                assert(cloned(self.profiles.values()[i], r.profiles.values()[i]));
            }
            assert(r@ =~= self@);
        }
        r
    }
}

impl View for RefreshState {
    type V = Seq<(Seq<char>, RefreshedProfileView)>;

    open spec fn view(&self) -> Seq<(Seq<char>, RefreshedProfileView)> {
        self.profiles@
    }
}

/// The usage family that a provider is reported under: API usage stands apart.
pub open spec fn family_of(provider: ProviderKindView) -> UsageFamily {
    match provider {
        ProviderKindView::OpenAiApiUsage => UsageFamily::Api,
        _ => UsageFamily::SubscriptionQuota,
    }
}

pub fn default_usage_family(provider: &ProviderKind) -> (r: UsageFamily)
    ensures
        r == family_of(provider@),
{
    match provider {
        ProviderKind::OpenAiApiUsage => UsageFamily::Api,
        ProviderKind::CodexProtocol => UsageFamily::SubscriptionQuota,
        ProviderKind::Other(_) => UsageFamily::SubscriptionQuota,
    }
}

/// What is known of a profile that has never been refreshed.
pub open spec fn unrefreshed(profile: AccountProfileView) -> RefreshedProfileView {
    RefreshedProfileView {
        profile,
        snapshot: None,
        usage_family: family_of(profile.provider),
        status: RefreshStatus::Stale,
        last_error: None,
        last_updated_at: None,
    }
}

/// The state of configured profiles before any refresh.
pub open spec fn initial_state(profiles: Seq<ConfiguredProfileView>) -> Seq<
    (Seq<char>, RefreshedProfileView),
>
    decreases profiles.len(),
{
    if profiles.len() == 0 {
        Seq::empty()
    } else {
        put(
            initial_state(profiles.drop_last()),
            profiles.last().profile.id,
            unrefreshed(profiles.last().profile),
        )
    }
}

/// When a profile is due again: its interval after the last refresh, or at the end of time.
pub open spec fn due_at(last_updated_at: u64, interval: u64) -> nat {
    if last_updated_at + interval > u64::MAX {
        u64::MAX as nat
    } else {
        (last_updated_at + interval) as nat
    }
}

/// Whether a refresh starts, and why.
pub open spec fn decision(
    entries: Seq<(Seq<char>, RefreshedProfileView)>,
    profile_id: Seq<char>,
    now_epoch_secs: u64,
    force: bool,
    in_flight: bool,
) -> (bool, Seq<char>) {
    if in_flight {
        (false, "refresh already in flight"@)
    } else {
        match lookup(entries, profile_id) {
            None => (false, "unknown profile"@),
            Some(known) => if force {
                if known.profile.refresh_policy.allow_manual_refresh {
                    (true, "manual refresh requested"@)
                } else {
                    (false, "manual refresh disabled by policy"@)
                }
            } else {
                match known.last_updated_at {
                    Some(last) if now_epoch_secs < due_at(
                        last,
                        known.profile.refresh_policy.refresh_interval_secs,
                    ) => (
                        false,
                        "next refresh due at "@ + decimal(
                            due_at(last, known.profile.refresh_policy.refresh_interval_secs),
                        ),
                    ),
                    _ => (true, "refresh interval elapsed"@),
                }
            },
        }
    }
}

/// What is known of a profile after a refresh succeeded: its own id, auth mode, policy and
/// bridge stay; the rest comes from upstream.
pub open spec fn succeeded(
    known: RefreshedProfileView,
    now_epoch_secs: u64,
    snapshot: CodexProviderSnapshotView,
) -> RefreshedProfileView {
    let bridge = known.profile.future_switch_bridge;
    let upstream = profile_of_identity(
        snapshot.identity,
        ProviderKindView::CodexProtocol,
        known.profile.auth_mode,
        AccountHealth::Healthy,
        known.profile.refresh_policy,
        bridge,
    );
    RefreshedProfileView {
        profile: AccountProfileView {
            id: known.profile.id,
            future_switch_bridge: FutureSwitchBridgeView {
                codex_account_id: match bridge.codex_account_id {
                    Some(id) => Some(id),
                    None => Some(snapshot.identity.account_id),
                },
                ..bridge
            },
            ..upstream
        },
        snapshot: Some(snapshot.quota_snapshot),
        usage_family: snapshot.usage_family,
        status: RefreshStatus::Healthy,
        last_error: None,
        last_updated_at: Some(now_epoch_secs),
    }
}

/// The status and the health that an error leaves.
pub open spec fn failure_status(error: CodexProviderErrorView) -> (RefreshStatus, AccountHealth) {
    match error {
        CodexProviderErrorView::Auth(_) => (RefreshStatus::AuthRequired, AccountHealth::AuthExpired),
        CodexProviderErrorView::Transport(message) => if has_part(lower(message), "rate limit"@) {
            (RefreshStatus::RateLimited, AccountHealth::RateLimited)
        } else {
            (RefreshStatus::Stale, AccountHealth::Stale)
        },
        CodexProviderErrorView::IncompatibleSchema { .. } => (
            RefreshStatus::Error,
            AccountHealth::Degraded,
        ),
        CodexProviderErrorView::InvalidPayload(_) => (RefreshStatus::Error, AccountHealth::Error),
    }
}

/// What is known of a profile after a refresh failed: status, health and error change, all else
/// stays.
pub open spec fn failed(
    known: RefreshedProfileView,
    error: CodexProviderErrorView,
) -> RefreshedProfileView {
    RefreshedProfileView {
        profile: AccountProfileView { health: failure_status(error).1, ..known.profile },
        status: failure_status(error).0,
        last_error: Some(error.text()),
        ..known
    }
}

/// What is known of a profile while its refresh runs.
pub open spec fn refreshing(known: RefreshedProfileView) -> RefreshedProfileView {
    RefreshedProfileView { status: RefreshStatus::Refreshing, ..known }
}

impl RefreshState {
    pub fn new(configured_profiles: &[ConfiguredProfile]) -> (r: Self)
        ensures
            r@ == initial_state(
                configured_profiles@.map_values(|c: ConfiguredProfile| c@),
            ),
    {
        let ghost all = configured_profiles@.map_values(|c: ConfiguredProfile| c@);
        let mut profiles: StringMap<RefreshedProfile> = StringMap::new();
        assert(all.take(0) =~= Seq::<ConfiguredProfileView>::empty());
        let mut i: usize = 0;
        while i < configured_profiles.len()
            invariant
                i <= configured_profiles.len(),
                all == configured_profiles@.map_values(|c: ConfiguredProfile| c@),
                profiles@ == initial_state(all.take(i as int)),
            decreases configured_profiles.len() - i,
        {
            let configured = &configured_profiles[i];
            profiles.insert(
                configured.profile.id.clone(),
                RefreshedProfile {
                    profile: configured.profile.clone(),
                    snapshot: None,
                    usage_family: default_usage_family(&configured.profile.provider),
                    status: RefreshStatus::Stale,
                    last_error: None,
                    last_updated_at: None,
                },
            );
            i = i + 1;
            assert(all.take(i as int).drop_last() =~= all.take(i - 1));
            assert(all.take(i as int).last() == configured@);
        }
        assert(all.take(i as int) =~= all);
        RefreshState { profiles }
    }

    pub fn should_start_refresh(&self, request: &RefreshRequest, in_flight: bool) -> (r:
        RefreshDecision)
        ensures
            (r.should_start, r.reason@) == decision(
                self@,
                request.profile_id@,
                request.now_epoch_secs,
                request.force,
                in_flight,
            ),
    {
        if in_flight {
            return RefreshDecision {
                should_start: false,
                reason: "refresh already in flight".to_owned(),
            };
        }
        let known = match self.profiles.get(request.profile_id.as_str()) {
            Some(known) => known,
            None => {
                return RefreshDecision { should_start: false, reason: "unknown profile".to_owned() };
            },
        };
        if request.force {
            if !known.profile.refresh_policy.allow_manual_refresh {
                return RefreshDecision {
                    should_start: false,
                    reason: "manual refresh disabled by policy".to_owned(),
                };
            }
            return RefreshDecision {
                should_start: true,
                reason: "manual refresh requested".to_owned(),
            };
        }
        if let Some(last_updated_at) = known.last_updated_at {
            let due: u64 = last_updated_at.saturating_add(
                known.profile.refresh_policy.refresh_interval_secs,
            );
            if request.now_epoch_secs < due {
                let number = text::from_u64(due);
                return RefreshDecision {
                    should_start: false,
                    reason: text::concat("next refresh due at ", number.as_str()),
                };
            }
        }
        RefreshDecision { should_start: true, reason: "refresh interval elapsed".to_owned() }
    }

    /// Takes over what a successful refresh brought.
    pub fn apply_codex_success(
        &mut self,
        profile_id: &str,
        now_epoch_secs: u64,
        snapshot: CodexProviderSnapshot,
    ) -> (r: Result<(), AppError>)
        ensures
            match (r, lookup(old(self)@, profile_id@)) {
                (Ok(_), Some(known)) => final(self)@ == put(
                    old(self)@,
                    profile_id@,
                    succeeded(known, now_epoch_secs, snapshot@),
                ),
                (Err(error), None) => error@ == AppErrorView::UnknownProfile(profile_id@)
                    && final(self)@ == old(self)@,
                _ => false,
            },
    {
        let mut known = match self.profiles.get(profile_id) {
            Some(known) => known.clone(),
            None => {
                return Err(AppError::UnknownProfile(profile_id.to_owned()));
            },
        };
        let upstream = AccountProfile::from_protocol_identity(
            snapshot.identity,
            ProviderKind::CodexProtocol,
            known.profile.auth_mode,
            AccountHealth::Healthy,
            known.profile.refresh_policy,
            known.profile.future_switch_bridge.clone(),
        );
        known.profile.display_name = upstream.display_name;
        known.profile.account_kind = upstream.account_kind;
        known.profile.membership = upstream.membership;
        known.profile.health = upstream.health;
        known.profile.provider = upstream.provider;
        known.profile.future_switch_bridge.codex_account_id = match upstream.future_switch_bridge.codex_account_id {
            Some(id) => Some(id),
            None => Some(upstream.id),
        };
        known.usage_family = snapshot.usage_family;
        known.snapshot = Some(snapshot.quota_snapshot);
        known.status = RefreshStatus::Healthy;
        known.last_error = None;
        known.last_updated_at = Some(now_epoch_secs);
        self.profiles.insert(profile_id.to_owned(), known);
        Ok(())
    }

    /// Records that a refresh failed; the last good snapshot stays.
    pub fn apply_codex_failure(&mut self, profile_id: &str, error: CodexProviderError) -> (r: Result<
        (),
        AppError,
    >)
        ensures
            match (r, lookup(old(self)@, profile_id@)) {
                (Ok(_), Some(known)) => final(self)@ == put(
                    old(self)@,
                    profile_id@,
                    failed(known, error@),
                ),
                (Err(error), None) => error@ == AppErrorView::UnknownProfile(profile_id@)
                    && final(self)@ == old(self)@,
                _ => false,
            },
    {
        let mut known = match self.profiles.get(profile_id) {
            Some(known) => known.clone(),
            None => {
                return Err(AppError::UnknownProfile(profile_id.to_owned()));
            },
        };
        let (status, health) = match &error {
            CodexProviderError::Auth(_) => (
                RefreshStatus::AuthRequired,
                AccountHealth::AuthExpired,
            ),
            CodexProviderError::Transport(message) => {
                let normalized = text::to_ascii_lowercase(message.as_str());
                if text::contains(normalized.as_str(), "rate limit") {
                    (RefreshStatus::RateLimited, AccountHealth::RateLimited)
                } else {
                    (RefreshStatus::Stale, AccountHealth::Stale)
                }
            },
            CodexProviderError::IncompatibleSchema { .. } => (
                RefreshStatus::Error,
                AccountHealth::Degraded,
            ),
            CodexProviderError::InvalidPayload(_) => (RefreshStatus::Error, AccountHealth::Error),
        };
        known.status = status;
        known.profile.health = health;
        known.last_error = Some(error.message());
        self.profiles.insert(profile_id.to_owned(), known);
        Ok(())
    }

    /// Records that a refresh has started.
    pub fn mark_refreshing(&mut self, profile_id: &str) -> (r: Result<(), AppError>)
        ensures
            match (r, lookup(old(self)@, profile_id@)) {
                (Ok(_), Some(known)) => final(self)@ == put(
                    old(self)@,
                    profile_id@,
                    refreshing(known),
                ),
                (Err(error), None) => error@ == AppErrorView::UnknownProfile(profile_id@)
                    && final(self)@ == old(self)@,
                _ => false,
            },
    {
        let mut known = match self.profiles.get(profile_id) {
            Some(known) => known.clone(),
            None => {
                return Err(AppError::UnknownProfile(profile_id.to_owned()));
            },
        };
        known.status = RefreshStatus::Refreshing;
        self.profiles.insert(profile_id.to_owned(), known);
        Ok(())
    }
}

#[derive(Debug, PartialEq, Eq)]
pub enum AppError {
    UnknownProfile(String),
}

/// The model of an [`AppError`].
#[verifier::ext_equal]
pub enum AppErrorView {
    UnknownProfile(Seq<char>),
}

impl View for AppError {
    type V = AppErrorView;

    open spec fn view(&self) -> AppErrorView {
        match *self {
            AppError::UnknownProfile(s) => AppErrorView::UnknownProfile(s@),
        }
    }
}

impl AppErrorView {
    /// The text of the error.
    pub open spec fn text(self) -> Seq<char> {
        match self {
            AppErrorView::UnknownProfile(s) => "unknown profile `"@ + s + "`"@,
        }
    }
}

impl AppError {
    /// The text of the error.
    pub fn message(&self) -> (r: String)
        ensures
            r@ == self@.text(),
    {
        match self {
            AppError::UnknownProfile(s) => {
                let mut m = text::concat("unknown profile `", s.as_str());
                m.append("`");
                m
            },
        }
    }
}

/// The policy with its interval between a minute and an hour.
pub open spec fn clamped(policy: RefreshPolicy) -> RefreshPolicy {
    RefreshPolicy {
        refresh_interval_secs: if policy.refresh_interval_secs < 60 {
            60
        } else if policy.refresh_interval_secs > 3600 {
            3600
        } else {
            policy.refresh_interval_secs
        },
        ..policy
    }
}

pub fn clamp_refresh_policy(policy: &RefreshPolicy) -> (r: RefreshPolicy)
    ensures
        r == clamped(*policy),
        60 <= r.refresh_interval_secs <= 3600,
{
    let refresh_interval_secs: u64 = if policy.refresh_interval_secs < 60 {
        60
    } else if policy.refresh_interval_secs > 3600 {
        3600
    } else {
        policy.refresh_interval_secs
    };
    RefreshPolicy { refresh_interval_secs, allow_manual_refresh: policy.allow_manual_refresh }
}

/// A failed refresh keeps the last good snapshot, when it was taken and how it is reported; of
/// the profile only the health changes.
pub proof fn lemma_failure_keeps_last_good_snapshot(
    known: RefreshedProfileView,
    error: CodexProviderErrorView,
)
    ensures
        failed(known, error).snapshot == known.snapshot,
        failed(known, error).last_updated_at == known.last_updated_at,
        failed(known, error).usage_family == known.usage_family,
        failed(known, error).profile == (AccountProfileView {
            health: failed(known, error).profile.health,
            ..known.profile
        }),
        failed(known, error).status != RefreshStatus::Healthy,
        failed(known, error).last_error is Some,
{
}

/// A successful refresh keeps the profile's own id, auth mode and refresh policy, and an account
/// id that the bridge already names.
pub proof fn lemma_success_keeps_local_profile(
    known: RefreshedProfileView,
    now_epoch_secs: u64,
    snapshot: CodexProviderSnapshotView,
)
    ensures
        ({
            let after = succeeded(known, now_epoch_secs, snapshot);
            let bridge = known.profile.future_switch_bridge;
            &&& after.profile.id == known.profile.id
            &&& after.profile.auth_mode == known.profile.auth_mode
            &&& after.profile.refresh_policy == known.profile.refresh_policy
            &&& after.profile.future_switch_bridge.opencode_profile_id == bridge.opencode_profile_id
            &&& bridge.codex_account_id is Some
                ==> after.profile.future_switch_bridge.codex_account_id == bridge.codex_account_id
            &&& after.status == RefreshStatus::Healthy
            &&& after.last_error is None
            &&& after.snapshot == Some(snapshot.quota_snapshot)
        }),
{
}

/// A success or a failure on one profile leaves every other profile as it was.
pub proof fn lemma_other_profiles_untouched(
    entries: Seq<(Seq<char>, RefreshedProfileView)>,
    profile_id: Seq<char>,
    known: RefreshedProfileView,
    other: Seq<char>,
)
    requires
        ordered(entries),
        other != profile_id,
    ensures
        lookup(put(entries, profile_id, known), other) == lookup(entries, other),
        lookup(put(entries, profile_id, known), profile_id) == Some(known),
{
    crate::string_map::lemma_lookup_put(entries, profile_id, known, other);
    crate::string_map::lemma_lookup_put(entries, profile_id, known, profile_id);
}

/// While a refresh is in flight no other one starts; no refresh is forced where the policy does
/// not allow it; and none starts for an unknown profile.
pub proof fn lemma_refused_refreshes(
    entries: Seq<(Seq<char>, RefreshedProfileView)>,
    profile_id: Seq<char>,
    now_epoch_secs: u64,
    force: bool,
    in_flight: bool,
)
    ensures
        in_flight ==> !decision(entries, profile_id, now_epoch_secs, force, in_flight).0,
        lookup(entries, profile_id) is None ==> !decision(
            entries,
            profile_id,
            now_epoch_secs,
            force,
            in_flight,
        ).0,
        force && (lookup(entries, profile_id) matches Some(known)
            && !known.profile.refresh_policy.allow_manual_refresh) ==> !decision(
            entries,
            profile_id,
            now_epoch_secs,
            force,
            in_flight,
        ).0,
{
}

/// After a successful refresh the next scheduled one starts exactly when the interval has passed,
/// and never before.
pub proof fn lemma_scheduled_refresh_waits(
    entries: Seq<(Seq<char>, RefreshedProfileView)>,
    profile_id: Seq<char>,
    known: RefreshedProfileView,
    refreshed_at: u64,
    snapshot: CodexProviderSnapshotView,
    now_epoch_secs: u64,
)
    requires
        ordered(entries),
    ensures
        decision(
            put(entries, profile_id, succeeded(known, refreshed_at, snapshot)),
            profile_id,
            now_epoch_secs,
            false,
            false,
        ).0 == (now_epoch_secs >= due_at(
            refreshed_at,
            known.profile.refresh_policy.refresh_interval_secs,
        )),
{
    crate::string_map::lemma_lookup_put(
        entries,
        profile_id,
        succeeded(known, refreshed_at, snapshot),
        profile_id,
    );
}

/// Bringing a policy between its bounds twice is the same as once, and leaves one that is
/// between them as it is.
pub proof fn lemma_clamped(policy: RefreshPolicy)
    ensures
        clamped(clamped(policy)) == clamped(policy),
        60 <= policy.refresh_interval_secs <= 3600 ==> clamped(policy) == policy,
        clamped(policy).allow_manual_refresh == policy.allow_manual_refresh,
{
}

/// After a successful refresh the profile is what upstream says it is: its name, kind and provider,
/// healthy, with the membership of the identity's plan type, whatever membership it had before; only
/// a ChatGPT account has one, and it keeps the plan type as upstream writes it.
pub proof fn lemma_success_takes_upstream_identity(
    known: RefreshedProfileView,
    now_epoch_secs: u64,
    snapshot: CodexProviderSnapshotView,
)
    ensures
        ({
            let after = succeeded(known, now_epoch_secs, snapshot);
            let identity = snapshot.identity;
            &&& after.profile.display_name == identity.display_name
            &&& after.profile.account_kind == identity.account_kind
            &&& after.profile.provider is CodexProtocol
            &&& after.profile.health is Healthy
            &&& !(identity.account_kind is Chatgpt) ==> after.profile.membership is None
            &&& identity.account_kind is Chatgpt ==> match (
                identity.plan_type,
                after.profile.membership,
            ) {
                (Some(plan), Some(membership)) => {
                    &&& trimmed(plan).len() > 0
                    &&& membership.raw_plan_type == Some(trimmed(plan))
                    &&& Some(membership) == membership_of(Some(plan))
                },
                (Some(plan), None) => trimmed(plan).len() == 0,
                (None, membership) => membership is None,
            }
        }),
{
}

/// A successful refresh leaves nothing of what was known of the account before but the profile's own
/// id, auth mode, policy and bridge: two profiles that agree in these are the same after it.
pub proof fn lemma_success_forgets_the_past(
    a: RefreshedProfileView,
    b: RefreshedProfileView,
    now_epoch_secs: u64,
    snapshot: CodexProviderSnapshotView,
)
    requires
        a.profile.id == b.profile.id,
        a.profile.auth_mode == b.profile.auth_mode,
        a.profile.refresh_policy == b.profile.refresh_policy,
        a.profile.future_switch_bridge == b.profile.future_switch_bridge,
    ensures
        succeeded(a, now_epoch_secs, snapshot) == succeeded(b, now_epoch_secs, snapshot),
{
}

/// A successful refresh shows the quotas that it brought, under the family that it brought them for,
/// and is dated at its own time; an account id that the bridge lacks is filled in from upstream.
pub proof fn lemma_success_is_recorded(
    known: RefreshedProfileView,
    now_epoch_secs: u64,
    snapshot: CodexProviderSnapshotView,
)
    ensures
        ({
            let after = succeeded(known, now_epoch_secs, snapshot);
            &&& after.snapshot == Some(snapshot.quota_snapshot)
            &&& after.usage_family == snapshot.usage_family
            &&& after.status is Healthy
            &&& after.last_error is None
            &&& after.last_updated_at == Some(now_epoch_secs)
            &&& known.profile.future_switch_bridge.codex_account_id is None
                ==> after.profile.future_switch_bridge.codex_account_id == Some(
                snapshot.identity.account_id,
            )
        }),
{
}

/// What a failed refresh leaves: an expired login asks for a new one; a transport that speaks of a
/// rate limit, in any case, is one; any other transport failure makes the account stale; another
/// schema degrades it; a broken payload is an error. The error's text is kept.
pub proof fn lemma_failures_are_told_apart(
    known: RefreshedProfileView,
    error: CodexProviderErrorView,
)
    ensures
        ({
            let after = failed(known, error);
            let status = after.status;
            let health = after.profile.health;
            &&& after.last_error == Some(error.text())
            &&& match error {
                CodexProviderErrorView::Auth(_) => status is AuthRequired && health is AuthExpired,
                CodexProviderErrorView::Transport(message) => {
                    &&& has_part(lower(message), "rate limit"@) ==> status is RateLimited && health
                        is RateLimited
                    &&& !has_part(lower(message), "rate limit"@) ==> status is Stale && health
                        is Stale
                },
                CodexProviderErrorView::IncompatibleSchema { .. } => status is Error && health
                    is Degraded,
                CodexProviderErrorView::InvalidPayload(_) => status is Error && health is Error,
            }
        }),
{
}

/// A refresh that starts changes nothing but the status, so one that fails then is recorded as if it
/// had not been marked.
pub proof fn lemma_marking_changes_only_the_status(
    known: RefreshedProfileView,
    error: CodexProviderErrorView,
    now_epoch_secs: u64,
    snapshot: CodexProviderSnapshotView,
)
    ensures
        refreshing(known).status is Refreshing,
        refreshing(known).profile == known.profile,
        refreshing(known).snapshot == known.snapshot,
        refreshing(known).usage_family == known.usage_family,
        refreshing(known).last_error == known.last_error,
        refreshing(known).last_updated_at == known.last_updated_at,
        failed(refreshing(known), error) == failed(known, error),
        succeeded(refreshing(known), now_epoch_secs, snapshot) == succeeded(
            known,
            now_epoch_secs,
            snapshot,
        ),
{
}

/// A refresh starts exactly where none is in flight, the profile is known, and it is either forced
/// and may be, or due: never refreshed, or not within its interval after the last time. A time at
/// which it would be due that lies behind the last moment counts as that moment.
pub proof fn lemma_when_a_refresh_starts(
    entries: Seq<(Seq<char>, RefreshedProfileView)>,
    profile_id: Seq<char>,
    now_epoch_secs: u64,
    force: bool,
    in_flight: bool,
)
    ensures
        decision(entries, profile_id, now_epoch_secs, force, in_flight).0 <==> (!in_flight && (
        lookup(entries, profile_id) matches Some(known) && (if force {
            known.profile.refresh_policy.allow_manual_refresh
        } else {
            known.last_updated_at matches Some(last) ==> now_epoch_secs == u64::MAX
                || now_epoch_secs >= last + known.profile.refresh_policy.refresh_interval_secs
        }))),
{
}

/// The reason of a decision: each cause has its own words, and the moment of the next refresh is
/// named.
pub proof fn lemma_reasons(
    entries: Seq<(Seq<char>, RefreshedProfileView)>,
    profile_id: Seq<char>,
    now_epoch_secs: u64,
    force: bool,
    in_flight: bool,
)
    ensures
        ({
            let (starts, reason) = decision(
                entries,
                profile_id,
                now_epoch_secs,
                force,
                in_flight,
            );
            match lookup(entries, profile_id) {
                _ if in_flight => reason == "refresh already in flight"@,
                None => reason == "unknown profile"@,
                Some(_) if force && starts => reason == "manual refresh requested"@,
                Some(_) if force => reason == "manual refresh disabled by policy"@,
                Some(_) if starts => reason == "refresh interval elapsed"@,
                Some(known) => known.last_updated_at matches Some(last) && exists|due: nat|
                    reason == "next refresh due at "@ + #[trigger] decimal(due) && due
                        > now_epoch_secs && (due == last
                        + known.profile.refresh_policy.refresh_interval_secs || (due == u64::MAX
                        && due < last + known.profile.refresh_policy.refresh_interval_secs)),
            }
        }),
{
    if let Some(known) = lookup(entries, profile_id) {
        if let Some(last) = known.last_updated_at {
            let due = due_at(last, known.profile.refresh_policy.refresh_interval_secs);
            assert(decimal(due) == decimal(due));
        }
    }
}

/// API usage is reported apart: before any refresh the usage family is that of API usage exactly for
/// the provider of API usage.
pub proof fn lemma_families(profile: AccountProfileView)
    ensures
        unrefreshed(profile).usage_family == UsageFamily::Api <==> profile.provider
            is OpenAiApiUsage,
        unrefreshed(profile).profile == profile,
        unrefreshed(profile).status is Stale,
        unrefreshed(profile).snapshot is None,
        unrefreshed(profile).last_error is None,
        unrefreshed(profile).last_updated_at is None,
{
}

/// Before any refresh each id has what is known of an unrefreshed profile: of the last one that is
/// configured under it.
pub proof fn lemma_initial_profiles(profiles: Seq<ConfiguredProfileView>, i: int)
    requires
        0 <= i < profiles.len(),
        forall|j: int|
            i < j < profiles.len() ==> (#[trigger] profiles[j]).profile.id
                != profiles[i].profile.id,
    ensures
        lookup(initial_state(profiles), profiles[i].profile.id) == Some(
            unrefreshed(profiles[i].profile),
        ),
        ordered(initial_state(profiles)),
    decreases profiles.len(),
{
    let rest = profiles.drop_last();
    let last = profiles.last().profile;
    lemma_initial_state_ordered(profiles);
    lemma_initial_state_ordered(rest);
    crate::string_map::lemma_lookup_put(
        initial_state(rest),
        last.id,
        unrefreshed(last),
        profiles[i].profile.id,
    );
    if i < rest.len() {
        assert(profiles[profiles.len() - 1].profile.id != profiles[i].profile.id);
        assert forall|j: int| i < j < rest.len() implies (#[trigger] rest[j]).profile.id
            != rest[i].profile.id by {
            assert(rest[j] == profiles[j]);
        }
        lemma_initial_profiles(rest, i);
    }
}

proof fn lemma_initial_state_ordered(profiles: Seq<ConfiguredProfileView>)
    ensures
        ordered(initial_state(profiles)),
    decreases profiles.len(),
{
    if profiles.len() > 0 {
        lemma_initial_state_ordered(profiles.drop_last());
        crate::string_map::lemma_put_ordered(
            initial_state(profiles.drop_last()),
            profiles.last().profile.id,
            unrefreshed(profiles.last().profile),
        );
    }
}

/// A policy outside its bounds is brought to the nearest of them: a minute or an hour.
pub proof fn lemma_clamped_to_nearest(policy: RefreshPolicy)
    ensures
        policy.refresh_interval_secs < 60 ==> clamped(policy).refresh_interval_secs == 60,
        policy.refresh_interval_secs > 3600 ==> clamped(policy).refresh_interval_secs == 3600,
        60 <= policy.refresh_interval_secs <= 3600 ==> clamped(policy).refresh_interval_secs
            == policy.refresh_interval_secs,
{
}

/// So much for the decision itself: a refresh starts exactly where none is in flight, the profile is
/// known, and it is forced and may be, or due.
pub proof fn lemma_started_refresh(
    state: RefreshState,
    request: RefreshRequest,
    in_flight: bool,
    r: RefreshDecision,
)
    requires
        call_ensures(RefreshState::should_start_refresh, (&state, &request, in_flight), r),
    ensures
        r.should_start <==> (!in_flight && (lookup(state@, request.profile_id@) matches Some(known)
            && (if request.force {
            known.profile.refresh_policy.allow_manual_refresh
        } else {
            known.last_updated_at matches Some(last) ==> request.now_epoch_secs == u64::MAX
                || request.now_epoch_secs >= last
                + known.profile.refresh_policy.refresh_interval_secs
        }))),
{
}

} // verus!
