//! Accounts and quota windows, and the rules that bring protocol values into this form.
use vstd::prelude::*;
use vstd::string::*;

use crate::percent::UsedPercent;
use crate::text::{self, before, decimal, has_part, lower, trimmed};

verus! {

/// Identifies which backend family produced a profile or quota snapshot.
#[derive(Debug, PartialEq, Eq)]
pub enum ProviderKind {
    CodexProtocol,
    OpenAiApiUsage,
    Other(String),
}

/// The model of a [`ProviderKind`].
#[verifier::ext_equal]
pub enum ProviderKindView {
    CodexProtocol,
    OpenAiApiUsage,
    Other(Seq<char>),
}

impl View for ProviderKind {
    type V = ProviderKindView;

    open spec fn view(&self) -> ProviderKindView {
        match *self {
            ProviderKind::CodexProtocol => ProviderKindView::CodexProtocol,
            ProviderKind::OpenAiApiUsage => ProviderKindView::OpenAiApiUsage,
            ProviderKind::Other(s) => ProviderKindView::Other(s@),
        }
    }
}

impl Clone for ProviderKind {
    fn clone(&self) -> (r: Self)
        ensures
            r@ == self@,
    {
        match self {
            ProviderKind::CodexProtocol => ProviderKind::CodexProtocol,
            ProviderKind::OpenAiApiUsage => ProviderKind::OpenAiApiUsage,
            ProviderKind::Other(s) => ProviderKind::Other(s.clone()),
        }
    }
}

/// Distinguishes ChatGPT/Codex subscription quotas from OpenAI API usage telemetry.
#[derive(Debug, Clone, Copy, PartialEq, Eq, Structural)]
pub enum UsageFamily {
    SubscriptionQuota,
    Api,
}

/// Captures how the user authenticated the profile so UI and storage code stay aligned.
#[derive(Debug, Clone, Copy, PartialEq, Eq, Structural)]
pub enum AuthMode {
    Browser,
    Headless,
    ApiKey,
}

/// Separates account identity kind from subscription tier so API-key accounts do not pretend to
/// have ChatGPT memberships.
#[derive(Debug, PartialEq, Eq)]
pub enum AccountKind {
    Chatgpt,
    ApiKey,
    Other(String),
}

/// The model of an [`AccountKind`].
#[verifier::ext_equal]
pub enum AccountKindView {
    Chatgpt,
    ApiKey,
    Other(Seq<char>),
}

impl View for AccountKind {
    type V = AccountKindView;

    open spec fn view(&self) -> AccountKindView {
        match *self {
            AccountKind::Chatgpt => AccountKindView::Chatgpt,
            AccountKind::ApiKey => AccountKindView::ApiKey,
            AccountKind::Other(s) => AccountKindView::Other(s@),
        }
    }
}

impl Clone for AccountKind {
    fn clone(&self) -> (r: Self)
        ensures
            r@ == self@,
    {
        match self {
            AccountKind::Chatgpt => AccountKind::Chatgpt,
            AccountKind::ApiKey => AccountKind::ApiKey,
            AccountKind::Other(s) => AccountKind::Other(s.clone()),
        }
    }
}

/// Stable, user-visible membership buckets derived from upstream `planType` values.
#[derive(Debug, Clone, Copy, PartialEq, Eq, Structural)]
pub enum MembershipTier {
    Free,
    Go,
    Plus,
    Pro,
    Team,
    Edu,
    Business,
    Enterprise,
    Unknown,
    Other,
}

/// Preserves the raw upstream `planType` string even when the tier falls back to `Other` or
/// `Unknown`.
#[derive(Debug, PartialEq, Eq)]
pub struct AccountMembership {
    pub tier: MembershipTier,
    pub raw_plan_type: Option<String>,
}

/// The model of an [`AccountMembership`].
#[verifier::ext_equal]
pub struct AccountMembershipView {
    pub tier: MembershipTier,
    pub raw_plan_type: Option<Seq<char>>,
}

impl View for AccountMembership {
    type V = AccountMembershipView;

    open spec fn view(&self) -> AccountMembershipView {
        AccountMembershipView { tier: self.tier, raw_plan_type: self.raw_plan_type.deep_view() }
    }
}

impl DeepView for AccountMembership {
    type V = AccountMembershipView;

    open spec fn deep_view(&self) -> AccountMembershipView {
        self@
    }
}

impl Clone for AccountMembership {
    fn clone(&self) -> (r: Self)
        ensures
            r@ == self@,
    {
        AccountMembership { tier: self.tier, raw_plan_type: self.raw_plan_type.clone() }
    }
}

/// The tier of a plan type in lower case.
pub open spec fn tier_of(plan: Seq<char>) -> MembershipTier {
    if plan == "free"@ {
        MembershipTier::Free
    } else if plan == "go"@ {
        MembershipTier::Go
    } else if plan == "plus"@ {
        MembershipTier::Plus
    } else if plan == "pro"@ {
        MembershipTier::Pro
    } else if plan == "team"@ {
        MembershipTier::Team
    } else if plan == "edu"@ {
        MembershipTier::Edu
    } else if plan == "business"@ || plan == "business_plus"@ || plan == "business_pro"@ || plan
        == "self_serve_business_usage_based"@ {
        MembershipTier::Business
    } else if plan == "enterprise"@ || plan == "enterprise_standard"@ || plan == "enterprise_plus"@
        || plan == "enterprise_pro"@ || plan == "enterprise_cbp_usage_based"@ {
        MembershipTier::Enterprise
    } else if plan == "unknown"@ {
        MembershipTier::Unknown
    } else {
        MembershipTier::Other
    }
}

/// The membership that a plan type stands for: none where the plan type is missing or blank,
/// else its tier beside the plan type without the white space around it.
pub open spec fn membership_of(plan_type: Option<Seq<char>>) -> Option<AccountMembershipView> {
    match plan_type {
        None => None,
        Some(plan) => {
            let raw = trimmed(plan);
            if raw.len() == 0 {
                None
            } else {
                Some(
                    AccountMembershipView { tier: tier_of(lower(raw)), raw_plan_type: Some(raw) },
                )
            }
        },
    }
}

fn tier_named(plan: &str) -> (r: MembershipTier)
    ensures
        r == tier_of(plan@),
{
    if text::same(plan, "free") {
        MembershipTier::Free
    } else if text::same(plan, "go") {
        MembershipTier::Go
    } else if text::same(plan, "plus") {
        MembershipTier::Plus
    } else if text::same(plan, "pro") {
        MembershipTier::Pro
    } else if text::same(plan, "team") {
        MembershipTier::Team
    } else if text::same(plan, "edu") {
        MembershipTier::Edu
    } else if text::same(plan, "business") || text::same(plan, "business_plus") || text::same(
        plan,
        "business_pro",
    ) || text::same(plan, "self_serve_business_usage_based") {
        MembershipTier::Business
    } else if text::same(plan, "enterprise") || text::same(plan, "enterprise_standard")
        || text::same(plan, "enterprise_plus") || text::same(plan, "enterprise_pro") || text::same(
        plan,
        "enterprise_cbp_usage_based",
    ) {
        MembershipTier::Enterprise
    } else if text::same(plan, "unknown") {
        MembershipTier::Unknown
    } else {
        MembershipTier::Other
    }
}

impl AccountMembership {
    /// Normalizes protocol-backed plan types into stable UI buckets while retaining the original
    /// value for forward compatibility.
    pub fn from_plan_type(plan_type: Option<&str>) -> (r: Option<Self>)
        ensures
            r.deep_view() == membership_of(plan_type.deep_view()),
    {
        match plan_type {
            None => None,
            Some(plan) => {
                let raw = text::trim(plan);
                if raw.unicode_len() == 0 {
                    return None;
                }
                let normalized = text::to_ascii_lowercase(raw);
                let tier = tier_named(normalized.as_str());
                Some(AccountMembership { tier, raw_plan_type: Some(raw.to_owned()) })
            },
        }
    }
}

/// Models whether a profile is healthy enough to refresh or display, without embedding
/// provider/network errors in the domain.
#[derive(Debug, Clone, Copy, PartialEq, Eq, Structural)]
pub enum AccountHealth {
    Healthy,
    Stale,
    AuthExpired,
    RateLimited,
    Degraded,
    Error,
}

/// Defines how often the app may refresh a profile and whether a user can manually override the
/// cadence.
#[derive(Debug, Clone, Copy, PartialEq, Eq, Structural)]
pub struct RefreshPolicy {
    pub refresh_interval_secs: u64,
    pub allow_manual_refresh: bool,
}

/// Reserves stable identifiers for future external account/profile switching without implementing
/// the switch flow yet.
#[derive(Debug, PartialEq, Eq)]
pub struct FutureSwitchBridge {
    pub opencode_profile_id: Option<String>,
    pub codex_account_id: Option<String>,
}

/// The model of a [`FutureSwitchBridge`].
#[verifier::ext_equal]
pub struct FutureSwitchBridgeView {
    pub opencode_profile_id: Option<Seq<char>>,
    pub codex_account_id: Option<Seq<char>>,
}

/// The bridge that names no identifier.
pub open spec fn no_bridge() -> FutureSwitchBridgeView {
    FutureSwitchBridgeView { opencode_profile_id: None, codex_account_id: None }
}

impl View for FutureSwitchBridge {
    type V = FutureSwitchBridgeView;

    open spec fn view(&self) -> FutureSwitchBridgeView {
        FutureSwitchBridgeView {
            opencode_profile_id: self.opencode_profile_id.deep_view(),
            codex_account_id: self.codex_account_id.deep_view(),
        }
    }
}

impl Clone for FutureSwitchBridge {
    fn clone(&self) -> (r: Self)
        ensures
            r@ == self@,
    {
        FutureSwitchBridge {
            opencode_profile_id: self.opencode_profile_id.clone(),
            codex_account_id: self.codex_account_id.clone(),
        }
    }
}

impl Default for FutureSwitchBridge {
    fn default() -> (r: Self)
        ensures
            r@ == no_bridge(),
    {
        FutureSwitchBridge { opencode_profile_id: None, codex_account_id: None }
    }
}

/// Canonical account metadata shared across config, storage, provider, and UI layers.
#[derive(Debug, PartialEq, Eq)]
pub struct AccountProfile {
    pub id: String,
    pub display_name: String,
    pub provider: ProviderKind,
    pub auth_mode: AuthMode,
    pub account_kind: AccountKind,
    pub membership: Option<AccountMembership>,
    pub health: AccountHealth,
    pub refresh_policy: RefreshPolicy,
    pub future_switch_bridge: FutureSwitchBridge,
}

/// The model of an [`AccountProfile`].
#[verifier::ext_equal]
pub struct AccountProfileView {
    pub id: Seq<char>,
    pub display_name: Seq<char>,
    pub provider: ProviderKindView,
    pub auth_mode: AuthMode,
    pub account_kind: AccountKindView,
    pub membership: Option<AccountMembershipView>,
    pub health: AccountHealth,
    pub refresh_policy: RefreshPolicy,
    pub future_switch_bridge: FutureSwitchBridgeView,
}

impl View for AccountProfile {
    type V = AccountProfileView;

    open spec fn view(&self) -> AccountProfileView {
        AccountProfileView {
            id: self.id@,
            display_name: self.display_name@,
            provider: self.provider@,
            auth_mode: self.auth_mode,
            account_kind: self.account_kind@,
            membership: self.membership.deep_view(),
            health: self.health,
            refresh_policy: self.refresh_policy,
            future_switch_bridge: self.future_switch_bridge@,
        }
    }
}

impl DeepView for AccountProfile {
    type V = AccountProfileView;

    open spec fn deep_view(&self) -> AccountProfileView {
        self@
    }
}

impl Clone for AccountProfile {
    fn clone(&self) -> (r: Self)
        ensures
            r@ == self@,
    {
        let membership: Option<AccountMembership> = match &self.membership {
            Some(m) => Some(m.clone()),
            None => None,
        };
        AccountProfile {
            id: self.id.clone(),
            display_name: self.display_name.clone(),
            provider: self.provider.clone(),
            auth_mode: self.auth_mode,
            account_kind: self.account_kind.clone(),
            membership,
            health: self.health,
            refresh_policy: self.refresh_policy,
            future_switch_bridge: self.future_switch_bridge.clone(),
        }
    }
}

/// Transport-friendly identity input used by provider adapters.
#[derive(Debug, Clone, PartialEq, Eq)]
pub struct ProtocolAccountIdentity {
    pub account_id: String,
    pub display_name: String,
    pub account_kind: AccountKind,
    pub plan_type: Option<String>,
}

/// The model of a [`ProtocolAccountIdentity`].
#[verifier::ext_equal]
pub struct ProtocolAccountIdentityView {
    pub account_id: Seq<char>,
    pub display_name: Seq<char>,
    pub account_kind: AccountKindView,
    pub plan_type: Option<Seq<char>>,
}

impl View for ProtocolAccountIdentity {
    type V = ProtocolAccountIdentityView;

    open spec fn view(&self) -> ProtocolAccountIdentityView {
        ProtocolAccountIdentityView {
            account_id: self.account_id@,
            display_name: self.display_name@,
            account_kind: self.account_kind@,
            plan_type: self.plan_type.deep_view(),
        }
    }
}

/// The profile of an identity: only a ChatGPT account has a membership.
pub open spec fn profile_of_identity(
    identity: ProtocolAccountIdentityView,
    provider: ProviderKindView,
    auth_mode: AuthMode,
    health: AccountHealth,
    refresh_policy: RefreshPolicy,
    future_switch_bridge: FutureSwitchBridgeView,
) -> AccountProfileView {
    AccountProfileView {
        id: identity.account_id,
        display_name: identity.display_name,
        provider,
        auth_mode,
        account_kind: identity.account_kind,
        membership: if identity.account_kind is Chatgpt {
            membership_of(identity.plan_type)
        } else {
            None
        },
        health,
        refresh_policy,
        future_switch_bridge,
    }
}

impl AccountProfile {
    /// Builds an account profile from protocol-backed identity fields while keeping account kind
    /// and membership tier distinct.
    pub fn from_protocol_identity(
        identity: ProtocolAccountIdentity,
        provider: ProviderKind,
        auth_mode: AuthMode,
        health: AccountHealth,
        refresh_policy: RefreshPolicy,
        future_switch_bridge: FutureSwitchBridge,
    ) -> (r: Self)
        ensures
            r@ == profile_of_identity(
                identity@,
                provider@,
                auth_mode,
                health,
                refresh_policy,
                future_switch_bridge@,
            ),
    {
        let membership = match &identity.account_kind {
            AccountKind::Chatgpt => match &identity.plan_type {
                Some(plan) => AccountMembership::from_plan_type(Some(plan.as_str())),
                None => AccountMembership::from_plan_type(None),
            },
            AccountKind::ApiKey => None,
            AccountKind::Other(_) => None,
        };
        AccountProfile {
            id: identity.account_id,
            display_name: identity.display_name,
            provider,
            auth_mode,
            account_kind: identity.account_kind,
            membership,
            health,
            refresh_policy,
            future_switch_bridge,
        }
    }
}

/// Severity is derived from used percent so UI code can color windows without re-encoding
/// thresholds.
#[derive(Debug, Clone, Copy, PartialEq, Eq, Structural)]
pub enum QuotaSeverity {
    Normal,
    Warning,
    Critical,
    Exhausted,
}

impl QuotaSeverity {
    /// The severity of a percentage.
    pub open spec fn of(used_percent: UsedPercent) -> QuotaSeverity {
        if used_percent.at_least(100) {
            QuotaSeverity::Exhausted
        } else if used_percent.at_least(90) {
            QuotaSeverity::Critical
        } else if used_percent.at_least(75) {
            QuotaSeverity::Warning
        } else {
            QuotaSeverity::Normal
        }
    }

    /// How severe this is, as a number.
    pub open spec fn rank(self) -> int {
        match self {
            QuotaSeverity::Normal => 0,
            QuotaSeverity::Warning => 1,
            QuotaSeverity::Critical => 2,
            QuotaSeverity::Exhausted => 3,
        }
    }

    pub fn from_used_percent(used_percent: UsedPercent) -> (r: Self)
        ensures
            r == QuotaSeverity::of(used_percent),
    {
        if used_percent.at_least_100() {
            QuotaSeverity::Exhausted
        } else if used_percent.at_least_90() {
            QuotaSeverity::Critical
        } else if used_percent.at_least_75() {
            QuotaSeverity::Warning
        } else {
            QuotaSeverity::Normal
        }
    }
}

/// Window kind drives ordering and primary/secondary selection but never discards unrecognized
/// windows.
#[derive(Debug, Clone, Copy, PartialEq, Eq, Structural)]
pub enum QuotaWindowKind {
    FiveHour,
    Weekly,
    Unknown,
}

/// Canonical representation of a single quota window after protocol normalization.
#[derive(Debug, PartialEq)]
pub struct QuotaWindow {
    pub kind: QuotaWindowKind,
    pub limit_id: String,
    pub used_percent: UsedPercent,
    pub window_duration_mins: u32,
    pub resets_at: String,
    pub label: String,
    pub severity: QuotaSeverity,
}

/// The model of a [`QuotaWindow`].
#[verifier::ext_equal]
pub struct QuotaWindowView {
    pub kind: QuotaWindowKind,
    pub limit_id: Seq<char>,
    pub used_percent: UsedPercent,
    pub window_duration_mins: u32,
    pub resets_at: Seq<char>,
    pub label: Seq<char>,
    pub severity: QuotaSeverity,
}

impl View for QuotaWindow {
    type V = QuotaWindowView;

    open spec fn view(&self) -> QuotaWindowView {
        QuotaWindowView {
            kind: self.kind,
            limit_id: self.limit_id@,
            used_percent: self.used_percent,
            window_duration_mins: self.window_duration_mins,
            resets_at: self.resets_at@,
            label: self.label@,
            severity: self.severity,
        }
    }
}

impl DeepView for QuotaWindow {
    type V = QuotaWindowView;

    open spec fn deep_view(&self) -> QuotaWindowView {
        self@
    }
}

impl Clone for QuotaWindow {
    fn clone(&self) -> (r: Self)
        ensures
            r@ == self@,
    {
        QuotaWindow {
            kind: self.kind,
            limit_id: self.limit_id.clone(),
            used_percent: self.used_percent,
            window_duration_mins: self.window_duration_mins,
            resets_at: self.resets_at.clone(),
            label: self.label.clone(),
            severity: self.severity,
        }
    }
}

/// Minimal protocol-backed input for a single rate-limit window.
#[derive(Debug, Clone, PartialEq)]
pub struct ProtocolRateLimitWindow {
    pub limit_id: String,
    pub label: Option<String>,
    pub used_percent: UsedPercent,
    pub window_duration_mins: u32,
    pub resets_at: String,
}

/// The model of a [`ProtocolRateLimitWindow`].
#[verifier::ext_equal]
pub struct ProtocolRateLimitWindowView {
    pub limit_id: Seq<char>,
    pub label: Option<Seq<char>>,
    pub used_percent: UsedPercent,
    pub window_duration_mins: u32,
    pub resets_at: Seq<char>,
}

impl View for ProtocolRateLimitWindow {
    type V = ProtocolRateLimitWindowView;

    open spec fn view(&self) -> ProtocolRateLimitWindowView {
        ProtocolRateLimitWindowView {
            limit_id: self.limit_id@,
            label: self.label.deep_view(),
            used_percent: self.used_percent,
            window_duration_mins: self.window_duration_mins,
            resets_at: self.resets_at@,
        }
    }
}

impl DeepView for ProtocolRateLimitWindow {
    type V = ProtocolRateLimitWindowView;

    open spec fn deep_view(&self) -> ProtocolRateLimitWindowView {
        self@
    }
}

/// The kind of a window: by its duration, or by what its limit id names in any case.
pub open spec fn window_kind(limit_id: Seq<char>, window_duration_mins: u32) -> QuotaWindowKind {
    let id = lower(limit_id);
    if window_duration_mins == 300 || has_part(id, "5h"@) || has_part(id, "5_h"@) || has_part(
        id,
        "5hr"@,
    ) || has_part(id, "five_hour"@) {
        QuotaWindowKind::FiveHour
    } else if window_duration_mins == 10_080 || has_part(id, "week"@) {
        QuotaWindowKind::Weekly
    } else {
        QuotaWindowKind::Unknown
    }
}

pub fn classify_window(limit_id: &str, window_duration_mins: u32) -> (r: QuotaWindowKind)
    ensures
        r == window_kind(limit_id@, window_duration_mins),
{
    let normalized_limit_id = text::to_ascii_lowercase(limit_id);
    let id = normalized_limit_id.as_str();
    if window_duration_mins == 300 || text::contains(id, "5h") || text::contains(id, "5_h")
        || text::contains(id, "5hr") || text::contains(id, "five_hour") {
        QuotaWindowKind::FiveHour
    } else if window_duration_mins == 10_080 || text::contains(id, "week") {
        QuotaWindowKind::Weekly
    } else {
        QuotaWindowKind::Unknown
    }
}

/// The label of a window that comes without one.
pub open spec fn fallback_label(kind: QuotaWindowKind, window_duration_mins: u32) -> Seq<char> {
    match kind {
        QuotaWindowKind::FiveHour => "5h"@,
        QuotaWindowKind::Weekly => "Weekly"@,
        QuotaWindowKind::Unknown => decimal(window_duration_mins as nat) + "m"@,
    }
}

pub fn fallback_window_label(kind: QuotaWindowKind, window_duration_mins: u32) -> (r: String)
    ensures
        r@ == fallback_label(kind, window_duration_mins),
{
    match kind {
        QuotaWindowKind::FiveHour => "5h".to_owned(),
        QuotaWindowKind::Weekly => "Weekly".to_owned(),
        QuotaWindowKind::Unknown => {
            let mut label = text::from_u64(window_duration_mins as u64);
            label.append("m");
            label
        },
    }
}

/// The window that a protocol window is normalized to.
pub open spec fn normalized(window: ProtocolRateLimitWindowView) -> QuotaWindowView {
    let kind = window_kind(window.limit_id, window.window_duration_mins);
    QuotaWindowView {
        kind,
        limit_id: window.limit_id,
        used_percent: window.used_percent,
        window_duration_mins: window.window_duration_mins,
        resets_at: window.resets_at,
        label: match window.label {
            Some(label) => label,
            None => fallback_label(kind, window.window_duration_mins),
        },
        severity: QuotaSeverity::of(window.used_percent),
    }
}

impl QuotaWindow {
    /// Converts a protocol window into a displayable domain object while preserving raw IDs and
    /// durations for unknown cases.
    pub fn from_protocol_window(window: ProtocolRateLimitWindow) -> (r: Self)
        ensures
            r@ == normalized(window@),
    {
        let kind = classify_window(window.limit_id.as_str(), window.window_duration_mins);
        let label = match window.label {
            Some(label) => label,
            None => fallback_window_label(kind, window.window_duration_mins),
        };
        QuotaWindow {
            kind,
            limit_id: window.limit_id,
            used_percent: window.used_percent,
            window_duration_mins: window.window_duration_mins,
            resets_at: window.resets_at,
            label,
            severity: QuotaSeverity::from_used_percent(window.used_percent),
        }
    }
}

/// The place of a kind in the order of windows.
pub open spec fn kind_rank(kind: QuotaWindowKind) -> u8 {
    match kind {
        QuotaWindowKind::FiveHour => 0,
        QuotaWindowKind::Weekly => 1,
        QuotaWindowKind::Unknown => 2,
    }
}

/// The key by which a window is ordered.
pub open spec fn sort_key(window: QuotaWindowView) -> (u8, u32, Seq<char>) {
    (kind_rank(window.kind), window.window_duration_mins, window.label)
}

/// Whether key `a` is smaller than key `b`: by rank, then duration, then label.
pub open spec fn key_before(a: (u8, u32, Seq<char>), b: (u8, u32, Seq<char>)) -> bool {
    a.0 < b.0 || (a.0 == b.0 && (a.1 < b.1 || (a.1 == b.1 && before(a.2, b.2))))
}

pub fn window_sort_key(window: &QuotaWindow) -> (r: (u8, u32, String))
    ensures
        (r.0, r.1, r.2@) == sort_key(window@),
{
    let rank: u8 = match window.kind {
        QuotaWindowKind::FiveHour => 0,
        QuotaWindowKind::Weekly => 1,
        QuotaWindowKind::Unknown => 2,
    };
    (rank, window.window_duration_mins, window.label.clone())
}

/// `windows` with `window` put behind the last one whose key is not larger.
pub open spec fn placed(windows: Seq<QuotaWindowView>, window: QuotaWindowView) -> Seq<
    QuotaWindowView,
>
    decreases windows.len(),
{
    if windows.len() == 0 || !key_before(sort_key(window), sort_key(windows.last())) {
        windows.push(window)
    } else {
        placed(windows.drop_last(), window).push(windows.last())
    }
}

/// `windows` in the order of their keys, windows with one key in the order in which they came.
pub open spec fn arranged(windows: Seq<QuotaWindowView>) -> Seq<QuotaWindowView>
    decreases windows.len(),
{
    if windows.len() == 0 {
        windows
    } else {
        placed(arranged(windows.drop_last()), windows.last())
    }
}

/// The first window of a kind.
pub open spec fn first_of_kind(windows: Seq<QuotaWindowView>, kind: QuotaWindowKind) -> Option<
    QuotaWindowView,
>
    decreases windows.len(),
{
    if windows.len() == 0 {
        None
    } else if windows[0].kind == kind {
        Some(windows[0])
    } else {
        first_of_kind(windows.drop_first(), kind)
    }
}

/// Grouped snapshot used by the UI and refresh orchestration layers.
#[derive(Debug, PartialEq)]
pub struct QuotaSnapshot {
    pub windows: Vec<QuotaWindow>,
}

impl View for QuotaSnapshot {
    type V = Seq<QuotaWindowView>;

    open spec fn view(&self) -> Seq<QuotaWindowView> {
        self.windows.deep_view()
    }
}

impl DeepView for QuotaSnapshot {
    type V = Seq<QuotaWindowView>;

    open spec fn deep_view(&self) -> Seq<QuotaWindowView> {
        self@
    }
}

impl Clone for QuotaSnapshot {
    fn clone(&self) -> (r: Self)
        ensures
            r@ == self@,
    {
        let mut windows: Vec<QuotaWindow> = Vec::new();
        let mut i: usize = 0;
        while i < self.windows.len()
            invariant
                i <= self.windows.len(),
                windows.deep_view() == self@.take(i as int),
            decreases self.windows.len() - i,
        {
            let ghost done = windows.deep_view();
            windows.push(self.windows[i].clone());
            i = i + 1;
            assert(windows.deep_view() =~= done.push(self@[i - 1]));
            assert(self@.take(i as int) =~= self@.take(i - 1).push(self@[i - 1]));
        }
        assert(self@.take(i as int) =~= self@);
        QuotaSnapshot { windows }
    }
}

fn key_precedes(a: &(u8, u32, String), b: &(u8, u32, String)) -> (r: bool)
    ensures
        r == key_before((a.0, a.1, a.2@), (b.0, b.1, b.2@)),
{
    a.0 < b.0 || (a.0 == b.0 && (a.1 < b.1 || (a.1 == b.1 && text::precedes(
        a.2.as_str(),
        b.2.as_str(),
    ))))
}

fn place(windows: &mut Vec<QuotaWindow>, window: QuotaWindow)
    ensures
        final(windows).deep_view() == placed(old(windows).deep_view(), window@),
{
    let ghost all = windows.deep_view();
    let ghost w = window@;
    let key = window_sort_key(&window);
    let mut at: usize = windows.len();
    assert(all.take(at as int) =~= all);
    assert(placed(all, w) =~= placed(all, w) + all.skip(at as int));
    while at > 0 && key_precedes(&key, &window_sort_key(&windows[at - 1]))
        invariant
            at <= windows.len(),
            windows.deep_view() == all,
            w == window@,
            (key.0, key.1, key.2@) == sort_key(w),
            placed(all, w) == placed(all.take(at as int), w) + all.skip(at as int),
        decreases at,
    {
        let ghost head = all.take(at as int);
        assert(head.last() == windows@[at - 1]@);
        at = at - 1;
        assert(head.drop_last() =~= all.take(at as int));
        assert(placed(all.take(at as int), w).push(head.last()) + all.skip(at + 1) =~= placed(
            all.take(at as int),
            w,
        ) + all.skip(at as int));
    }
    assert(at > 0 ==> all.take(at as int).last() == windows@[at - 1]@);
    windows.insert(at, window);
    assert(windows.deep_view() =~= all.take(at as int).push(w) + all.skip(at as int));
}

impl QuotaSnapshot {
    /// Normalizes and orders windows so 5-hour and weekly quotas land in stable positions when
    /// upstream provides them.
    pub fn from_protocol_windows(windows: Vec<ProtocolRateLimitWindow>) -> (r: Self)
        ensures
            r@ == arranged(windows.deep_view().map_values(|w| normalized(w))),
    {
        let ghost all = windows.deep_view().map_values(|w| normalized(w));
        let mut done: Vec<QuotaWindow> = Vec::new();
        assert(done.deep_view() =~= all.take(0));
        let ghost items = windows@;
        assert(arranged(all.take(0)) == all.take(0));
        for window in it: windows
            invariant
                it.seq() == items,
                all == items.map_values(|w: ProtocolRateLimitWindow| w@).map_values(|w| normalized(w)),
                done.deep_view() == arranged(all.take(it.index() as int)),
        {
            let ghost i = it.index() as int;
            place(&mut done, QuotaWindow::from_protocol_window(window));
            assert(all.take(i + 1).drop_last() =~= all.take(i));
            assert(all.take(i + 1).last() == all[i]);
        }
        assert(all.take(all.len() as int) =~= all);
        QuotaSnapshot { windows: done }
    }

    fn first_window(&self, kind: QuotaWindowKind) -> (r: Option<&QuotaWindow>)
        ensures
            match r {
                Some(w) => first_of_kind(self@, kind) == Some(w@),
                None => first_of_kind(self@, kind) is None,
            },
    {
        let mut i: usize = 0;
        assert(self@.skip(0) =~= self@);
        while i < self.windows.len()
            invariant
                i <= self.windows.len() == self@.len(),
                first_of_kind(self@, kind) == first_of_kind(self@.skip(i as int), kind),
            decreases self.windows.len() - i,
        {
            assert(self@.skip(i as int)[0] == self.windows@[i as int]@);
            if self.windows[i].kind == kind {
                return Some(&self.windows[i]);
            }
            i = i + 1;
            assert(self@.skip(i - 1).drop_first() =~= self@.skip(i as int));
        }
        None
    }

    /// Returns the primary window only when an explicit 5-hour quota exists.
    pub fn primary_window(&self) -> (r: Option<&QuotaWindow>)
        ensures
            match r {
                Some(w) => first_of_kind(self@, QuotaWindowKind::FiveHour) == Some(w@),
                None => first_of_kind(self@, QuotaWindowKind::FiveHour) is None,
            },
    {
        self.first_window(QuotaWindowKind::FiveHour)
    }

    /// Returns the secondary window only when an explicit weekly quota exists.
    pub fn secondary_window(&self) -> (r: Option<&QuotaWindow>)
        ensures
            match r {
                Some(w) => first_of_kind(self@, QuotaWindowKind::Weekly) == Some(w@),
                None => first_of_kind(self@, QuotaWindowKind::Weekly) is None,
            },
    {
        self.first_window(QuotaWindowKind::Weekly)
    }
}

/// Of two numbers the larger is no less severe.
pub proof fn lemma_severity_grows(a: UsedPercent, b: UsedPercent)
    requires
        a.bits <= b.bits <= crate::percent::INFINITE,
    ensures
        QuotaSeverity::of(a).rank() <= QuotaSeverity::of(b).rank(),
{
    if b.bits < crate::percent::INFINITE && a.bits < b.bits {
        crate::percent::lemma_scaled_increases(a.bits as int, b.bits as int);
    }
    let unit = vstd::arithmetic::power2::pow2(1074);
    assert(100 * unit >= 90 * unit && 90 * unit >= 75 * unit);
}

/// A membership keeps the plan type it was made from, without the white space around it, and
/// only a ChatGPT account has one.
pub proof fn lemma_membership_of_identity(
    identity: ProtocolAccountIdentityView,
    provider: ProviderKindView,
    auth_mode: AuthMode,
    health: AccountHealth,
    refresh_policy: RefreshPolicy,
    future_switch_bridge: FutureSwitchBridgeView,
)
    ensures
        match profile_of_identity(
            identity,
            provider,
            auth_mode,
            health,
            refresh_policy,
            future_switch_bridge,
        ).membership {
            Some(membership) => {
                &&& identity.account_kind is Chatgpt
                &&& identity.plan_type matches Some(plan)
                &&& membership.raw_plan_type == Some(trimmed(plan))
            },
            None => {
                ||| !(identity.account_kind is Chatgpt)
                ||| identity.plan_type is None
                ||| trimmed(identity.plan_type.unwrap()).len() == 0
            },
        },
{
}

/// Whether no window stands before one with a smaller key.
pub open spec fn in_order(windows: Seq<QuotaWindowView>) -> bool {
    forall|i: int, j: int|
        0 <= i < j < windows.len() ==> !key_before(
            sort_key(#[trigger] windows[j]),
            sort_key(#[trigger] windows[i]),
        )
}

/// The windows that have `key`, in their order.
pub open spec fn with_key(windows: Seq<QuotaWindowView>, key: (u8, u32, Seq<char>)) -> Seq<
    QuotaWindowView,
>
    decreases windows.len(),
{
    if windows.len() == 0 {
        windows
    } else if sort_key(windows.last()) == key {
        with_key(windows.drop_last(), key).push(windows.last())
    } else {
        with_key(windows.drop_last(), key)
    }
}

proof fn lemma_key_order(
    a: (u8, u32, Seq<char>),
    b: (u8, u32, Seq<char>),
    c: (u8, u32, Seq<char>),
)
    ensures
        key_before(a, b) && key_before(b, c) ==> key_before(a, c),
        !key_before(a, a),
        key_before(a, b) || key_before(b, a) || a == b,
{
    text::lemma_before_irreflexive(a.2);
    if a.2 != b.2 {
        text::lemma_before_total(a.2, b.2);
    }
    if before(a.2, b.2) && before(b.2, c.2) {
        text::lemma_before_transitive(a.2, b.2, c.2);
    }
}

/// Every window of `placed(windows, window)` is the new one or one of `windows`.
proof fn lemma_placed_members(windows: Seq<QuotaWindowView>, window: QuotaWindowView, i: int)
    requires
        0 <= i < placed(windows, window).len(),
    ensures
        placed(windows, window)[i] == window || windows.contains(placed(windows, window)[i]),
    decreases windows.len(),
{
    let out = placed(windows, window);
    if windows.len() == 0 || !key_before(sort_key(window), sort_key(windows.last())) {
        if i < windows.len() {
            assert(out[i] == windows[i]);
        }
    } else if i < out.len() - 1 {
        let rest = windows.drop_last();
        lemma_placed_members(rest, window, i);
        if out[i] != window {
            let j = choose|j: int| 0 <= j < rest.len() && rest[j] == out[i];
            assert(windows[j] == out[i]);
        }
    } else {
        assert(out[i] == windows[windows.len() - 1]);
    }
}

proof fn lemma_placed_in_order(windows: Seq<QuotaWindowView>, window: QuotaWindowView)
    requires
        in_order(windows),
    ensures
        in_order(placed(windows, window)),
        placed(windows, window).len() == windows.len() + 1,
    decreases windows.len(),
{
    let out = placed(windows, window);
    let key = sort_key(window);
    if windows.len() == 0 || !key_before(key, sort_key(windows.last())) {
        assert forall|i: int, j: int| 0 <= i < j < out.len() implies !key_before(
            sort_key(#[trigger] out[j]),
            sort_key(#[trigger] out[i]),
        ) by {
            if j == windows.len() {
                let last = windows[windows.len() - 1];
                lemma_key_order(sort_key(windows[i]), sort_key(last), key);
                lemma_key_order(key, sort_key(windows[i]), sort_key(last));
                lemma_key_order(sort_key(last), key, sort_key(windows[i]));
            }
        }
    } else {
        let rest = windows.drop_last();
        assert forall|i: int, j: int| 0 <= i < j < rest.len() implies !key_before(
            sort_key(#[trigger] rest[j]),
            sort_key(#[trigger] rest[i]),
        ) by {
            assert(rest[i] == windows[i] && rest[j] == windows[j]);
        }
        lemma_placed_in_order(rest, window);
        let head = placed(rest, window);
        assert forall|i: int, j: int| 0 <= i < j < out.len() implies !key_before(
            sort_key(#[trigger] out[j]),
            sort_key(#[trigger] out[i]),
        ) by {
            assert(out[i] == head[i]);
            if j == head.len() {
                lemma_placed_members(rest, window, i);
                if head[i] == window {
                    lemma_key_order(key, sort_key(out[j]), key);
                } else {
                    let k = choose|k: int| 0 <= k < rest.len() && rest[k] == head[i];
                    assert(windows[k] == out[i]);
                    assert(windows[windows.len() - 1] == out[j]);
                }
            } else {
                assert(out[j] == head[j]);
            }
        }
    }
}

proof fn lemma_placed_with_key(
    windows: Seq<QuotaWindowView>,
    window: QuotaWindowView,
    key: (u8, u32, Seq<char>),
)
    requires
        in_order(windows),
    ensures
        with_key(placed(windows, window), key) == (if sort_key(window) == key {
            with_key(windows, key).push(window)
        } else {
            with_key(windows, key)
        }),
    decreases windows.len(),
{
    let out = placed(windows, window);
    if windows.len() == 0 || !key_before(sort_key(window), sort_key(windows.last())) {
        assert(out.drop_last() =~= windows);
    } else {
        let rest = windows.drop_last();
        assert forall|i: int, j: int| 0 <= i < j < rest.len() implies !key_before(
            sort_key(#[trigger] rest[j]),
            sort_key(#[trigger] rest[i]),
        ) by {
            assert(rest[i] == windows[i] && rest[j] == windows[j]);
        }
        lemma_placed_with_key(rest, window, key);
        assert(out.drop_last() =~= placed(rest, window));
        lemma_key_order(sort_key(window), sort_key(windows.last()), key);
    }
}

/// Ordering the windows leaves none out and adds none, leaves no window behind one with a larger
/// key, and keeps windows with one key in the order in which they came.
pub proof fn lemma_arranged(windows: Seq<QuotaWindowView>)
    ensures
        arranged(windows).len() == windows.len(),
        in_order(arranged(windows)),
        forall|key: (u8, u32, Seq<char>)| #[trigger]
            with_key(arranged(windows), key) == with_key(windows, key),
    decreases windows.len(),
{
    if windows.len() > 0 {
        let rest = windows.drop_last();
        lemma_arranged(rest);
        lemma_placed_in_order(arranged(rest), windows.last());
        assert forall|key: (u8, u32, Seq<char>)| #[trigger]
            with_key(arranged(windows), key) == with_key(windows, key) by {
            lemma_placed_with_key(arranged(rest), windows.last(), key);
            assert(with_key(arranged(rest), key) == with_key(rest, key));
        }
    }
}

/// In an ordered snapshot every five-hour window stands before every other, and every weekly
/// window before every unknown one.
pub proof fn lemma_kinds_in_order(windows: Seq<QuotaWindowView>, i: int, j: int)
    requires
        0 <= i < j < windows.len(),
    ensures
        kind_rank(arranged(windows)[i].kind) <= kind_rank(arranged(windows)[j].kind),
{
    lemma_arranged(windows);
    let out = arranged(windows);
    assert(!key_before(sort_key(out[j]), sort_key(out[i])));
}

/// A plan type is read without the white space around it and in any case, and each tier stands for
/// exactly the plan types that upstream gives it; a plan type of no tier is told apart from one that
/// upstream itself calls unknown.
pub proof fn lemma_tiers(plan: Seq<char>)
    requires
        trimmed(plan).len() > 0,
    ensures
        ({
            let name = lower(trimmed(plan));
            membership_of(Some(plan)) matches Some(membership) && {
                &&& membership.raw_plan_type == Some(trimmed(plan))
                &&& membership.tier is Free <==> name == "free"@
                &&& membership.tier is Go <==> name == "go"@
                &&& membership.tier is Plus <==> name == "plus"@
                &&& membership.tier is Pro <==> name == "pro"@
                &&& membership.tier is Team <==> name == "team"@
                &&& membership.tier is Edu <==> name == "edu"@
                &&& membership.tier is Business <==> (name == "business"@ || name
                    == "business_plus"@ || name == "business_pro"@ || name
                    == "self_serve_business_usage_based"@)
                &&& membership.tier is Enterprise <==> (name == "enterprise"@ || name
                    == "enterprise_standard"@ || name == "enterprise_plus"@ || name
                    == "enterprise_pro"@ || name == "enterprise_cbp_usage_based"@)
                &&& membership.tier is Unknown <==> name == "unknown"@
            }
        }),
{
    reveal_strlit("free");
    reveal_strlit("go");
    reveal_strlit("plus");
    reveal_strlit("pro");
    reveal_strlit("team");
    reveal_strlit("edu");
    reveal_strlit("business");
    reveal_strlit("business_plus");
    reveal_strlit("business_pro");
    reveal_strlit("self_serve_business_usage_based");
    reveal_strlit("enterprise");
    reveal_strlit("enterprise_standard");
    reveal_strlit("enterprise_plus");
    reveal_strlit("enterprise_pro");
    reveal_strlit("enterprise_cbp_usage_based");
    reveal_strlit("unknown");
    assert("free"@.len() == 4);
    assert("go"@.len() == 2);
    assert("plus"@.len() == 4);
    assert("pro"@.len() == 3);
    assert("team"@.len() == 4);
    assert("edu"@.len() == 3);
    assert("business"@.len() == 8);
    assert("business_plus"@.len() == 13);
    assert("business_pro"@.len() == 12);
    assert("self_serve_business_usage_based"@.len() == 31);
    assert("enterprise"@.len() == 10);
    assert("enterprise_standard"@.len() == 19);
    assert("enterprise_plus"@.len() == 15);
    assert("enterprise_pro"@.len() == 14);
    assert("enterprise_cbp_usage_based"@.len() == 26);
    assert("unknown"@.len() == 7);
    assert("free"@[0] == 'f' && "plus"@[0] == 'p' && "team"@[0] == 't');
    assert("pro"@[0] == 'p' && "edu"@[0] == 'e');
}

/// Two plan types that differ in the case of their letters or in the white space around them stand
/// for the same tier, and no plan type but a missing or blank one stands for no membership.
pub proof fn lemma_plan_types_by_name(a: Seq<char>, b: Seq<char>)
    requires
        lower(trimmed(a)) == lower(trimmed(b)),
    ensures
        membership_of(None) is None,
        membership_of(Some(a)) is None <==> trimmed(a).len() == 0,
        membership_of(Some(a)) is None <==> membership_of(Some(b)) is None,
        membership_of(Some(a)) matches Some(x) ==> membership_of(Some(b)) matches Some(y) && x.tier
            == y.tier,
{
    assert(trimmed(a).len() == lower(trimmed(a)).len());
    assert(trimmed(b).len() == lower(trimmed(b)).len());
}

/// A profile made from an identity has the identity's id, name and kind, and takes everything else
/// as it is given.
pub proof fn lemma_profile_of_identity(
    identity: ProtocolAccountIdentityView,
    provider: ProviderKindView,
    auth_mode: AuthMode,
    health: AccountHealth,
    refresh_policy: RefreshPolicy,
    future_switch_bridge: FutureSwitchBridgeView,
)
    ensures
        ({
            let profile = profile_of_identity(
                identity,
                provider,
                auth_mode,
                health,
                refresh_policy,
                future_switch_bridge,
            );
            &&& profile.id == identity.account_id
            &&& profile.display_name == identity.display_name
            &&& profile.account_kind == identity.account_kind
            &&& profile.provider == provider
            &&& profile.auth_mode == auth_mode
            &&& profile.health == health
            &&& profile.refresh_policy == refresh_policy
            &&& profile.future_switch_bridge == future_switch_bridge
            &&& identity.account_kind is Chatgpt ==> profile.membership == membership_of(
                identity.plan_type,
            )
            &&& !(identity.account_kind is Chatgpt) ==> profile.membership is None
        }),
{
}

/// A window of five hours is known by its duration or by its id in any case, a weekly one likewise
/// unless it is one of five hours, and no other window is taken for either.
pub proof fn lemma_window_kinds(limit_id: Seq<char>, window_duration_mins: u32)
    ensures
        ({
            let kind = window_kind(limit_id, window_duration_mins);
            let id = lower(limit_id);
            let five_hour = window_duration_mins == 300 || has_part(id, "5h"@) || has_part(
                id,
                "5_h"@,
            ) || has_part(id, "5hr"@) || has_part(id, "five_hour"@);
            let weekly = window_duration_mins == 10_080 || has_part(id, "week"@);
            &&& kind is FiveHour <==> five_hour
            &&& kind is Weekly <==> weekly && !five_hour
            &&& kind is Unknown <==> !weekly && !five_hour
        }),
{
}

/// Normalizing a window loses nothing of it: its id, percentage, duration and reset time stay, and so
/// does its label; a window without a label is named after its kind, an unknown one after its
/// duration.
pub proof fn lemma_normalized(window: ProtocolRateLimitWindowView)
    ensures
        ({
            let out = normalized(window);
            &&& out.limit_id == window.limit_id
            &&& out.used_percent == window.used_percent
            &&& out.window_duration_mins == window.window_duration_mins
            &&& out.resets_at == window.resets_at
            &&& out.kind == window_kind(window.limit_id, window.window_duration_mins)
            &&& window.label matches Some(label) ==> out.label == label
            &&& window.label is None ==> {
                &&& out.kind is FiveHour ==> out.label == "5h"@
                &&& out.kind is Weekly ==> out.label == "Weekly"@
                &&& out.kind is Unknown ==> out.label == decimal(
                    window.window_duration_mins as nat,
                ) + "m"@
            }
        }),
{
}

/// The severity of a window: exhausted from 100 percent on, critical from 90, a warning from 75; what
/// is below, negative or no number is normal. The bounds are the patterns of these three numbers.
pub proof fn lemma_severities(window: ProtocolRateLimitWindowView)
    ensures
        ({
            let bits = window.used_percent.bits;
            let severity = normalized(window).severity;
            &&& severity is Exhausted <==> 0x4059_0000_0000_0000 <= bits <= 0x7ff0_0000_0000_0000
            &&& severity is Critical <==> 0x4056_8000_0000_0000 <= bits < 0x4059_0000_0000_0000
            &&& severity is Warning <==> 0x4052_c000_0000_0000 <= bits < 0x4056_8000_0000_0000
            &&& severity is Normal <==> bits < 0x4052_c000_0000_0000 || bits
                > 0x7ff0_0000_0000_0000
        }),
{
    crate::percent::lemma_thresholds(window.used_percent);
}

proof fn lemma_placed_multiset(windows: Seq<QuotaWindowView>, window: QuotaWindowView)
    ensures
        placed(windows, window).to_multiset() == windows.to_multiset().insert(window),
    decreases windows.len(),
{
    broadcast use vstd::seq_lib::group_to_multiset_ensures;

    if windows.len() == 0 || !key_before(sort_key(window), sort_key(windows.last())) {
    } else {
        let rest = windows.drop_last();
        lemma_placed_multiset(rest, window);
        assert(rest.push(windows.last()) =~= windows);
        assert(windows.to_multiset() == rest.to_multiset().insert(windows.last()));
        assert(placed(windows, window).to_multiset() == rest.to_multiset().insert(window).insert(
            windows.last(),
        ));
        assert(rest.to_multiset().insert(window).insert(windows.last())
            =~= rest.to_multiset().insert(windows.last()).insert(window));
    }
}

/// Ordering the windows keeps each of them, as often as it came, and adds none.
pub proof fn lemma_arranged_keeps_windows(windows: Seq<QuotaWindowView>)
    ensures
        arranged(windows).to_multiset() == windows.to_multiset(),
        arranged(windows).len() == windows.len(),
        forall|w: QuotaWindowView| #[trigger] arranged(windows).contains(w) <==> windows.contains(w),
    decreases windows.len(),
{
    broadcast use vstd::seq_lib::group_to_multiset_ensures;

    lemma_arranged(windows);
    if windows.len() > 0 {
        let rest = windows.drop_last();
        lemma_arranged_keeps_windows(rest);
        lemma_placed_multiset(arranged(rest), windows.last());
        assert(rest.push(windows.last()) =~= windows);
        assert(windows.to_multiset() == rest.to_multiset().insert(windows.last()));
    }
    assert forall|w: QuotaWindowView| #[trigger]
        arranged(windows).contains(w) <==> windows.contains(w) by {
        assert(arranged(windows).to_multiset().count(w) == windows.to_multiset().count(w));
    }
}

/// Of two windows of a snapshot the one of five hours stands first, then the weekly one; of two of a
/// kind the shorter; of two as long the one whose label comes first.
pub proof fn lemma_arranged_order(windows: Seq<QuotaWindowView>, i: int, j: int)
    requires
        0 <= i < j < windows.len(),
    ensures
        ({
            let (a, b) = (arranged(windows)[i], arranged(windows)[j]);
            &&& !(b.kind is FiveHour && !(a.kind is FiveHour))
            &&& !(b.kind is Weekly && a.kind is Unknown)
            &&& a.kind == b.kind ==> a.window_duration_mins <= b.window_duration_mins
            &&& a.kind == b.kind && a.window_duration_mins == b.window_duration_mins ==> a.label
                == b.label || before(a.label, b.label)
        }),
{
    lemma_arranged(windows);
    let (a, b) = (arranged(windows)[i], arranged(windows)[j]);
    assert(!key_before(sort_key(b), sort_key(a)));
    if a.label != b.label {
        text::lemma_before_total(a.label, b.label);
    }
}

/// The window of a kind that is told of a snapshot is its first of that kind, and there is none only
/// where the snapshot has none.
pub proof fn lemma_first_of_kind(windows: Seq<QuotaWindowView>, kind: QuotaWindowKind)
    ensures
        match first_of_kind(windows, kind) {
            Some(window) => exists|i: int|
                0 <= i < windows.len() && #[trigger] windows[i] == window && window.kind == kind
                    && forall|j: int| 0 <= j < i ==> (#[trigger] windows[j]).kind != kind,
            None => forall|i: int| 0 <= i < windows.len() ==> (#[trigger] windows[i]).kind != kind,
        },
    decreases windows.len(),
{
    if windows.len() > 0 && windows[0].kind != kind {
        let rest = windows.drop_first();
        lemma_first_of_kind(rest, kind);
        match first_of_kind(rest, kind) {
            Some(window) => {
                let k = choose|i: int|
                    0 <= i < rest.len() && #[trigger] rest[i] == window && window.kind == kind
                        && forall|j: int| 0 <= j < i ==> (#[trigger] rest[j]).kind != kind;
                assert(windows[k + 1] == window);
                assert forall|j: int| 0 <= j < k + 1 implies (#[trigger] windows[j]).kind != kind by {
                    if j > 0 {
                        assert(rest[j - 1] == windows[j]);
                    }
                }
            },
            None => {
                assert forall|i: int| 0 <= i < windows.len() implies (#[trigger] windows[i]).kind
                    != kind by {
                    if i > 0 {
                        assert(rest[i - 1] == windows[i]);
                    }
                }
            },
        }
    } else if windows.len() > 0 {
        assert(windows[0] == first_of_kind(windows, kind).unwrap());
    }
}

} // verus!
