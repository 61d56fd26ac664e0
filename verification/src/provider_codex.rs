//! The adapter of the Codex protocol: from the two parsed responses to an identity and a quota
//! snapshot.
use vstd::prelude::*;
use vstd::string::*;

use crate::domain::{
    arranged, fallback_label, normalized, window_kind, AccountKind, AccountKindView,
    ProtocolAccountIdentity, ProtocolAccountIdentityView, ProtocolRateLimitWindow,
    ProtocolRateLimitWindowView, QuotaSeverity, QuotaSnapshot, QuotaWindowView, UsageFamily,
};
use crate::percent::UsedPercent;
use crate::string_map::StringMap;
use crate::text;

verus! {

pub const SUPPORTED_SCHEMA_VERSION: &'static str = "v2";

#[derive(Debug, Clone, PartialEq)]
pub struct CodexProviderSnapshot {
    pub identity: ProtocolAccountIdentity,
    pub quota_snapshot: QuotaSnapshot,
    pub usage_family: UsageFamily,
}

/// The model of a [`CodexProviderSnapshot`].
#[verifier::ext_equal]
pub struct CodexProviderSnapshotView {
    pub identity: ProtocolAccountIdentityView,
    pub quota_snapshot: Seq<QuotaWindowView>,
    pub usage_family: UsageFamily,
}

impl View for CodexProviderSnapshot {
    type V = CodexProviderSnapshotView;

    open spec fn view(&self) -> CodexProviderSnapshotView {
        CodexProviderSnapshotView {
            identity: self.identity@,
            quota_snapshot: self.quota_snapshot@,
            usage_family: self.usage_family,
        }
    }
}

/// Why no snapshot could be made.
#[derive(Debug, PartialEq, Eq)]
pub enum CodexProviderError {
    Transport(String),
    Auth(String),
    IncompatibleSchema { expected: String, found: String },
    InvalidPayload(String),
}

/// The model of a [`CodexProviderError`].
#[verifier::ext_equal]
pub enum CodexProviderErrorView {
    Transport(Seq<char>),
    Auth(Seq<char>),
    IncompatibleSchema { expected: Seq<char>, found: Seq<char> },
    InvalidPayload(Seq<char>),
}

impl View for CodexProviderError {
    type V = CodexProviderErrorView;

    open spec fn view(&self) -> CodexProviderErrorView {
        match *self {
            CodexProviderError::Transport(s) => CodexProviderErrorView::Transport(s@),
            CodexProviderError::Auth(s) => CodexProviderErrorView::Auth(s@),
            CodexProviderError::IncompatibleSchema {
                expected,
                found,
            } => CodexProviderErrorView::IncompatibleSchema { expected: expected@, found: found@ },
            CodexProviderError::InvalidPayload(s) => CodexProviderErrorView::InvalidPayload(s@),
        }
    }
}

impl CodexProviderErrorView {
    /// The text of the error.
    pub open spec fn text(self) -> Seq<char> {
        match self {
            CodexProviderErrorView::Transport(s) => "transport failure: "@ + s,
            CodexProviderErrorView::Auth(s) => "authentication failure: "@ + s,
            CodexProviderErrorView::IncompatibleSchema {
                expected,
                found,
            } => "schema incompatibility: expected "@ + expected + ", got "@ + found,
            CodexProviderErrorView::InvalidPayload(s) => "invalid payload: "@ + s,
        }
    }
}

impl CodexProviderError {
    /// The text of the error.
    pub fn message(&self) -> (r: String)
        ensures
            r@ == self@.text(),
    {
        match self {
            CodexProviderError::Transport(s) => text::concat("transport failure: ", s.as_str()),
            CodexProviderError::Auth(s) => text::concat("authentication failure: ", s.as_str()),
            CodexProviderError::IncompatibleSchema { expected, found } => {
                let mut m = "schema incompatibility: expected ".to_owned();
                m.append(expected.as_str());
                m.append(", got ");
                m.append(found.as_str());
                m
            },
            CodexProviderError::InvalidPayload(s) => text::concat("invalid payload: ", s.as_str()),
        }
    }
}

/// The response to the account request.
#[derive(Debug)]
pub struct AccountEnvelope {
    pub schema_version: Option<String>,
    pub account: Option<ProtocolAccount>,
    pub error: Option<ProtocolErrorPayload>,
}

/// The model of an [`AccountEnvelope`].
#[verifier::ext_equal]
pub struct AccountEnvelopeView {
    pub schema_version: Option<Seq<char>>,
    pub account: Option<ProtocolAccountView>,
    pub error: Option<ProtocolErrorPayloadView>,
}

impl View for AccountEnvelope {
    type V = AccountEnvelopeView;

    open spec fn view(&self) -> AccountEnvelopeView {
        AccountEnvelopeView {
            schema_version: self.schema_version.deep_view(),
            account: self.account.deep_view(),
            error: self.error.deep_view(),
        }
    }
}

/// The account of the response.
#[derive(Debug)]
pub enum ProtocolAccount {
    Chatgpt { email: String, plan_type: Option<String> },
    ApiKey,
}

/// The model of a [`ProtocolAccount`].
#[verifier::ext_equal]
pub enum ProtocolAccountView {
    Chatgpt { email: Seq<char>, plan_type: Option<Seq<char>> },
    ApiKey,
}

impl DeepView for ProtocolAccount {
    type V = ProtocolAccountView;

    open spec fn deep_view(&self) -> ProtocolAccountView {
        match *self {
            ProtocolAccount::Chatgpt { email, plan_type } => ProtocolAccountView::Chatgpt {
                email: email@,
                plan_type: plan_type.deep_view(),
            },
            ProtocolAccount::ApiKey => ProtocolAccountView::ApiKey,
        }
    }
}

/// The response to the rate limit request.
#[derive(Debug)]
pub struct RateLimitsEnvelope {
    pub schema_version: Option<String>,
    pub rate_limits: Option<Vec<ProtocolRateLimitSnapshot>>,
    pub rate_limits_by_limit_id: Option<StringMap<ProtocolRateLimitSnapshot>>,
    pub error: Option<ProtocolErrorPayload>,
}

/// The model of a [`RateLimitsEnvelope`].
#[verifier::ext_equal]
pub struct RateLimitsEnvelopeView {
    pub schema_version: Option<Seq<char>>,
    pub rate_limits: Option<Seq<ProtocolRateLimitSnapshotView>>,
    pub rate_limits_by_limit_id: Option<Seq<(Seq<char>, ProtocolRateLimitSnapshotView)>>,
    pub error: Option<ProtocolErrorPayloadView>,
}

impl View for RateLimitsEnvelope {
    type V = RateLimitsEnvelopeView;

    open spec fn view(&self) -> RateLimitsEnvelopeView {
        RateLimitsEnvelopeView {
            schema_version: self.schema_version.deep_view(),
            rate_limits: self.rate_limits.deep_view(),
            rate_limits_by_limit_id: self.rate_limits_by_limit_id.deep_view(),
            error: self.error.deep_view(),
        }
    }
}

/// One limit of the response, with its one or two windows.
#[derive(Debug)]
pub struct ProtocolRateLimitSnapshot {
    pub limit_id: Option<String>,
    pub limit_name: Option<String>,
    pub primary: Option<ProtocolWindow>,
    pub secondary: Option<ProtocolWindow>,
    pub plan_type: Option<String>,
}

/// The model of a [`ProtocolRateLimitSnapshot`].
#[verifier::ext_equal]
pub struct ProtocolRateLimitSnapshotView {
    pub limit_id: Option<Seq<char>>,
    pub limit_name: Option<Seq<char>>,
    pub primary: Option<ProtocolWindowView>,
    pub secondary: Option<ProtocolWindowView>,
    pub plan_type: Option<Seq<char>>,
}

impl DeepView for ProtocolRateLimitSnapshot {
    type V = ProtocolRateLimitSnapshotView;

    open spec fn deep_view(&self) -> ProtocolRateLimitSnapshotView {
        ProtocolRateLimitSnapshotView {
            limit_id: self.limit_id.deep_view(),
            limit_name: self.limit_name.deep_view(),
            primary: self.primary.deep_view(),
            secondary: self.secondary.deep_view(),
            plan_type: self.plan_type.deep_view(),
        }
    }
}

/// One window of a limit.
#[derive(Debug)]
pub struct ProtocolWindow {
    pub used_percent: UsedPercent,
    pub window_duration_mins: u32,
    pub resets_at: String,
}

/// The model of a [`ProtocolWindow`].
#[verifier::ext_equal]
pub struct ProtocolWindowView {
    pub used_percent: UsedPercent,
    pub window_duration_mins: u32,
    pub resets_at: Seq<char>,
}

impl DeepView for ProtocolWindow {
    type V = ProtocolWindowView;

    open spec fn deep_view(&self) -> ProtocolWindowView {
        ProtocolWindowView {
            used_percent: self.used_percent,
            window_duration_mins: self.window_duration_mins,
            resets_at: self.resets_at@,
        }
    }
}

/// The error of a response.
#[derive(Debug)]
pub struct ProtocolErrorPayload {
    pub code: String,
    pub message: String,
}

/// The model of a [`ProtocolErrorPayload`].
#[verifier::ext_equal]
pub struct ProtocolErrorPayloadView {
    pub code: Seq<char>,
    pub message: Seq<char>,
}

impl DeepView for ProtocolErrorPayload {
    type V = ProtocolErrorPayloadView;

    open spec fn deep_view(&self) -> ProtocolErrorPayloadView {
        ProtocolErrorPayloadView { code: self.code@, message: self.message@ }
    }
}

/// The error that a schema version brings: a missing version counts as the supported one.
pub open spec fn schema_error(found: Option<Seq<char>>) -> Option<CodexProviderErrorView> {
    match found {
        Some(version) if version != "v2"@ => Some(
            CodexProviderErrorView::IncompatibleSchema { expected: "v2"@, found: version },
        ),
        _ => None,
    }
}

/// The error that the payload of an error response stands for.
pub open spec fn classified(error: ProtocolErrorPayloadView) -> CodexProviderErrorView {
    if error.code == "auth_required"@ || error.code == "session_expired"@ || error.code
        == "unauthorized"@ {
        CodexProviderErrorView::Auth(error.message)
    } else {
        CodexProviderErrorView::Transport(error.message)
    }
}

/// The first plan type that one of the limits names.
pub open spec fn first_plan(snapshots: Seq<ProtocolRateLimitSnapshotView>) -> Option<Seq<char>>
    decreases snapshots.len(),
{
    if snapshots.len() == 0 {
        None
    } else if snapshots[0].plan_type is Some {
        snapshots[0].plan_type
    } else {
        first_plan(snapshots.drop_first())
    }
}

/// The limits of a map, in the order of their keys.
pub open spec fn map_limits(entries: Seq<(Seq<char>, ProtocolRateLimitSnapshotView)>) -> Seq<
    ProtocolRateLimitSnapshotView,
> {
    entries.map_values(|entry: (Seq<char>, ProtocolRateLimitSnapshotView)| entry.1)
}

/// The plan type that the rate limits name: the first of the list, else the first of the map.
pub open spec fn snapshot_plan(limits: RateLimitsEnvelopeView) -> Option<Seq<char>> {
    let listed = match limits.rate_limits {
        Some(snapshots) => first_plan(snapshots),
        None => None,
    };
    match (listed, limits.rate_limits_by_limit_id) {
        (Some(plan), _) => Some(plan),
        (None, Some(entries)) => first_plan(map_limits(entries)),
        (None, None) => None,
    }
}

/// The identity of an account; a ChatGPT account without a plan type takes the one that the rate
/// limits name.
pub open spec fn identity_of(
    account: ProtocolAccountView,
    limits: RateLimitsEnvelopeView,
) -> ProtocolAccountIdentityView {
    match account {
        ProtocolAccountView::Chatgpt { email, plan_type } => ProtocolAccountIdentityView {
            account_id: email,
            display_name: email,
            account_kind: AccountKindView::Chatgpt,
            plan_type: match plan_type {
                Some(plan) => Some(plan),
                None => snapshot_plan(limits),
            },
        },
        ProtocolAccountView::ApiKey => ProtocolAccountIdentityView {
            account_id: "api-key"@,
            display_name: "API Key"@,
            account_kind: AccountKindView::ApiKey,
            plan_type: None,
        },
    }
}

/// Whether one of the limits has the given id.
pub open spec fn names_limit(snapshots: Seq<ProtocolRateLimitSnapshotView>, id: Seq<char>) -> bool {
    exists|i: int| 0 <= i < snapshots.len() && (#[trigger] snapshots[i]).limit_id == Some(id)
}

/// `snapshots` with the entries behind them whose key is not yet the id of one of them.
pub open spec fn merged(
    snapshots: Seq<ProtocolRateLimitSnapshotView>,
    entries: Seq<(Seq<char>, ProtocolRateLimitSnapshotView)>,
) -> Seq<ProtocolRateLimitSnapshotView>
    decreases entries.len(),
{
    if entries.len() == 0 {
        snapshots
    } else if names_limit(snapshots, entries[0].0) {
        merged(snapshots, entries.drop_first())
    } else {
        merged(snapshots.push(entries[0].1), entries.drop_first())
    }
}

/// One window of a limit as a protocol window.
pub open spec fn window_of(
    limit_id: Seq<char>,
    limit_name: Option<Seq<char>>,
    window: ProtocolWindowView,
) -> ProtocolRateLimitWindowView {
    ProtocolRateLimitWindowView {
        limit_id,
        label: limit_name,
        used_percent: window.used_percent,
        window_duration_mins: window.window_duration_mins,
        resets_at: window.resets_at,
    }
}

/// The windows of a limit: the primary one, then the secondary one.
pub open spec fn windows_of(snapshot: ProtocolRateLimitSnapshotView) -> Seq<
    ProtocolRateLimitWindowView,
> {
    let id = match snapshot.limit_id {
        Some(id) => id,
        None => "unknown-limit"@,
    };
    let primary = match snapshot.primary {
        Some(window) => seq![window_of(id, snapshot.limit_name, window)],
        None => Seq::empty(),
    };
    match snapshot.secondary {
        Some(window) => primary.push(window_of(id, snapshot.limit_name, window)),
        None => primary,
    }
}

/// The windows of all limits, in their order.
pub open spec fn windows_of_all(snapshots: Seq<ProtocolRateLimitSnapshotView>) -> Seq<
    ProtocolRateLimitWindowView,
>
    decreases snapshots.len(),
{
    if snapshots.len() == 0 {
        Seq::empty()
    } else {
        windows_of_all(snapshots.drop_last()) + windows_of(snapshots.last())
    }
}

/// The limits of a response: those of its list, then those of its map that the list lacks.
pub open spec fn limits_of(limits: RateLimitsEnvelopeView) -> Seq<ProtocolRateLimitSnapshotView> {
    let listed = match limits.rate_limits {
        Some(snapshots) => snapshots,
        None => Seq::empty(),
    };
    match limits.rate_limits_by_limit_id {
        Some(entries) => merged(listed, entries),
        None => listed,
    }
}

/// What two parsed responses come to.
pub open spec fn adapted_envelopes(
    account: AccountEnvelopeView,
    limits: RateLimitsEnvelopeView,
) -> Result<CodexProviderSnapshotView, CodexProviderErrorView> {
    if let Some(error) = schema_error(account.schema_version) {
        Err(error)
    } else if let Some(error) = schema_error(limits.schema_version) {
        Err(error)
    } else if let Some(error) = account.error {
        Err(classified(error))
    } else if let Some(error) = limits.error {
        Err(classified(error))
    } else if let Some(account) = account.account {
        Ok(
            CodexProviderSnapshotView {
                identity: identity_of(account, limits),
                quota_snapshot: arranged(
                    windows_of_all(limits_of(limits)).map_values(
                        |w: ProtocolRateLimitWindowView| normalized(w),
                    ),
                ),
                usage_family: UsageFamily::SubscriptionQuota,
            },
        )
    } else {
        Err(CodexProviderErrorView::InvalidPayload("missing account object"@))
    }
}

/// What the outcomes of reading two responses come to; a failed reading is given by its text.
pub open spec fn adapted(
    account: Result<AccountEnvelope, String>,
    limits: Result<RateLimitsEnvelope, String>,
) -> Result<CodexProviderSnapshotView, CodexProviderErrorView> {
    match (account, limits) {
        (Err(text), _) => Err(CodexProviderErrorView::InvalidPayload("account payload: "@ + text@)),
        (Ok(_), Err(text)) => Err(
            CodexProviderErrorView::InvalidPayload("rate limit payload: "@ + text@),
        ),
        (Ok(account), Ok(limits)) => adapted_envelopes(account@, limits@),
    }
}

/// The model of a result of the adapter.
pub open spec fn outcome(r: Result<CodexProviderSnapshot, CodexProviderError>) -> Result<
    CodexProviderSnapshotView,
    CodexProviderErrorView,
> {
    match r {
        Ok(snapshot) => Ok(snapshot@),
        Err(error) => Err(error@),
    }
}

pub struct CodexProtocolAdapter;

impl CodexProtocolAdapter {
    /// Builds the provider snapshot from the two responses as they were read from JSON; where
    /// reading failed, the reader's text stands in place of the response.
    pub fn from_json(
        account: &Result<AccountEnvelope, String>,
        rate_limits: &Result<RateLimitsEnvelope, String>,
    ) -> (r: Result<CodexProviderSnapshot, CodexProviderError>)
        ensures
            outcome(r) == adapted(*account, *rate_limits),
    {
        let account_response = match account {
            Ok(response) => response,
            Err(text) => {
                let mut m = "account payload: ".to_owned();
                m.append(text.as_str());
                return Err(CodexProviderError::InvalidPayload(m));
            },
        };
        let rate_limit_response = match rate_limits {
            Ok(response) => response,
            Err(text) => {
                let mut m = "rate limit payload: ".to_owned();
                m.append(text.as_str());
                return Err(CodexProviderError::InvalidPayload(m));
            },
        };
        if let Err(error) = ensure_supported_schema(&account_response.schema_version) {
            return Err(error);
        }
        if let Err(error) = ensure_supported_schema(&rate_limit_response.schema_version) {
            return Err(error);
        }
        if let Some(error) = &account_response.error {
            return Err(classify_error(error));
        }
        if let Some(error) = &rate_limit_response.error {
            return Err(classify_error(error));
        }
        match &account_response.account {
            Some(account) => {
                let identity = to_protocol_identity(account, rate_limit_response);
                let windows = extract_windows(rate_limit_response);
                let quota_snapshot = QuotaSnapshot::from_protocol_windows(windows);
                Ok(
                    CodexProviderSnapshot {
                        identity,
                        quota_snapshot,
                        usage_family: UsageFamily::SubscriptionQuota,
                    },
                )
            },
            None => Err(
                CodexProviderError::InvalidPayload("missing account object".to_owned()),
            ),
        }
    }
}

fn ensure_supported_schema(found: &Option<String>) -> (r: Result<(), CodexProviderError>)
    ensures
        match r {
            Ok(_) => schema_error(found.deep_view()) is None,
            Err(error) => schema_error(found.deep_view()) == Some(error@),
        },
{
    match found {
        Some(version) => {
            if text::same(version.as_str(), SUPPORTED_SCHEMA_VERSION) {
                Ok(())
            } else {
                Err(
                    CodexProviderError::IncompatibleSchema {
                        expected: SUPPORTED_SCHEMA_VERSION.to_owned(),
                        found: version.clone(),
                    },
                )
            }
        },
        None => Ok(()),
    }
}

fn classify_error(error: &ProtocolErrorPayload) -> (r: CodexProviderError)
    ensures
        r@ == classified(error.deep_view()),
{
    let code = error.code.as_str();
    if text::same(code, "auth_required") || text::same(code, "session_expired") || text::same(
        code,
        "unauthorized",
    ) {
        CodexProviderError::Auth(error.message.clone())
    } else {
        CodexProviderError::Transport(error.message.clone())
    }
}

fn to_protocol_identity(account: &ProtocolAccount, rate_limits: &RateLimitsEnvelope) -> (r:
    ProtocolAccountIdentity)
    ensures
        r@ == identity_of(account.deep_view(), rate_limits@),
{
    match account {
        ProtocolAccount::Chatgpt { email, plan_type } => {
            let effective_plan = match plan_type {
                Some(plan) => Some(plan.clone()),
                None => find_snapshot_plan_type(rate_limits),
            };
            ProtocolAccountIdentity {
                account_id: email.clone(),
                display_name: email.clone(),
                account_kind: AccountKind::Chatgpt,
                plan_type: effective_plan,
            }
        },
        ProtocolAccount::ApiKey => ProtocolAccountIdentity {
            account_id: "api-key".to_owned(),
            display_name: "API Key".to_owned(),
            account_kind: AccountKind::ApiKey,
            plan_type: None,
        },
    }
}

fn find_snapshot_plan_type(rate_limits: &RateLimitsEnvelope) -> (r: Option<String>)
    ensures
        r.deep_view() == snapshot_plan(rate_limits@),
{
    if let Some(snapshots) = &rate_limits.rate_limits {
        let ghost all = snapshots.deep_view();
        let mut i: usize = 0;
        assert(all.skip(0) =~= all);
        while i < snapshots.len()
            invariant
                i <= snapshots.len(),
                all == snapshots.deep_view(),
                rate_limits@.rate_limits == Some(all),
                first_plan(all) == first_plan(all.skip(i as int)),
            decreases snapshots.len() - i,
        {
            assert(all.skip(i as int)[0] == snapshots@[i as int].deep_view());
            if let Some(plan) = &snapshots[i].plan_type {
                return Some(plan.clone());
            }
            i = i + 1;
            assert(all.skip(i - 1).drop_first() =~= all.skip(i as int));
        }
    }
    if let Some(buckets) = &rate_limits.rate_limits_by_limit_id {
        let ghost all = map_limits(buckets@);
        let mut i: usize = 0;
        assert(all.skip(0) =~= all);
        while i < buckets.len()
            invariant
                i <= all.len() == buckets@.len(),
                all == map_limits(buckets@),
                rate_limits@.rate_limits_by_limit_id == Some(buckets@),
                rate_limits@.rate_limits matches Some(listed) ==> first_plan(listed) is None,
                first_plan(all) == first_plan(all.skip(i as int)),
            decreases all.len() - i,
        {
            let snapshot = buckets.value_at(i);
            assert(all.skip(i as int)[0] == snapshot.deep_view());
            if let Some(plan) = &snapshot.plan_type {
                return Some(plan.clone());
            }
            i = i + 1;
            assert(all.skip(i - 1).drop_first() =~= all.skip(i as int));
        }
    }
    None
}

fn any_names_limit(snapshots: &Vec<&ProtocolRateLimitSnapshot>, id: &str) -> (r: bool)
    ensures
        r == names_limit(snapshots.deep_view(), id@),
{
    let ghost all = snapshots.deep_view();
    let mut i: usize = 0;
    while i < snapshots.len()
        invariant
            i <= snapshots.len(),
            all == snapshots.deep_view(),
            forall|j: int| 0 <= j < i ==> (#[trigger] all[j]).limit_id != Some(id@),
        decreases snapshots.len() - i,
    {
        assert(all[i as int] == snapshots@[i as int].deep_view());
        if let Some(limit_id) = &snapshots[i].limit_id {
            if text::same(limit_id.as_str(), id) {
                return true;
            }
        }
        i = i + 1;
    }
    false
}

fn extract_windows(response: &RateLimitsEnvelope) -> (r: Vec<ProtocolRateLimitWindow>)
    ensures
        r.deep_view() == windows_of_all(limits_of(response@)),
{
    let mut snapshots: Vec<&ProtocolRateLimitSnapshot> = Vec::new();
    let ghost listed = match response@.rate_limits {
        Some(snapshots) => snapshots,
        None => Seq::empty(),
    };
    if let Some(list) = &response.rate_limits {
        let mut i: usize = 0;
        assert(snapshots.deep_view() =~= listed.take(0));
        while i < list.len()
            invariant
                i <= list.len(),
                listed == list.deep_view(),
                snapshots.deep_view() == listed.take(i as int),
            decreases list.len() - i,
        {
            let ghost done = snapshots.deep_view();
            snapshots.push(&list[i]);
            i = i + 1;
            assert(snapshots.deep_view() =~= done.push(listed[i - 1]));
            assert(listed.take(i as int) =~= listed.take(i - 1).push(listed[i - 1]));
        }
        assert(listed.take(i as int) =~= listed);
    }
    assert(snapshots.deep_view() =~= listed);
    if let Some(by_id) = &response.rate_limits_by_limit_id {
        let ghost entries = by_id@;
        let mut i: usize = 0;
        assert(entries.skip(0) =~= entries);
        while i < by_id.len()
            invariant
                i <= entries.len(),
                entries == by_id@,
                merged(snapshots.deep_view(), entries.skip(i as int)) == merged(listed, entries),
            decreases entries.len() - i,
        {
            let ghost done = snapshots.deep_view();
            let ghost left = entries.skip(i as int);
            assert(left[0] == entries[i as int]);
            assert(left.drop_first() =~= entries.skip(i + 1));
            if !any_names_limit(&snapshots, by_id.key_at(i).as_str()) {
                snapshots.push(by_id.value_at(i));
                assert(snapshots.deep_view() =~= done.push(entries[i as int].1));
            }
            i = i + 1;
        }
    }
    let ghost all = snapshots.deep_view();
    assert(all == limits_of(response@));
    let mut windows: Vec<ProtocolRateLimitWindow> = Vec::new();
    let mut i: usize = 0;
    assert(windows.deep_view() =~= windows_of_all(all.take(0)));
    while i < snapshots.len()
        invariant
            i <= snapshots.len(),
            all == snapshots.deep_view(),
            windows.deep_view() == windows_of_all(all.take(i as int)),
        decreases snapshots.len() - i,
    {
        let ghost done = windows.deep_view();
        let snapshot = snapshots[i];
        let ghost s = snapshot.deep_view();
        assert(s == all[i as int]);
        let limit_id: &str = match &snapshot.limit_id {
            Some(id) => id.as_str(),
            None => "unknown-limit",
        };
        if let Some(primary) = &snapshot.primary {
            windows.push(to_protocol_window(limit_id, &snapshot.limit_name, primary));
        }
        assert(windows.deep_view() =~= done + (match s.primary {
            Some(window) => seq![window_of(limit_id@, s.limit_name, window)],
            None => Seq::empty(),
        }));
        if let Some(secondary) = &snapshot.secondary {
            windows.push(to_protocol_window(limit_id, &snapshot.limit_name, secondary));
        }
        assert(windows.deep_view() =~= done + windows_of(s));
        i = i + 1;
        assert(all.take(i as int).drop_last() =~= all.take(i - 1));
        assert(all.take(i as int).last() == s);
    }
    assert(all.take(i as int) =~= all);
    windows
}

fn to_protocol_window(limit_id: &str, limit_name: &Option<String>, window: &ProtocolWindow) -> (r:
    ProtocolRateLimitWindow)
    ensures
        r@ == window_of(limit_id@, limit_name.deep_view(), window.deep_view()),
{
    ProtocolRateLimitWindow {
        limit_id: limit_id.to_owned(),
        label: limit_name.clone(),
        used_percent: window.used_percent,
        window_duration_mins: window.window_duration_mins,
        resets_at: window.resets_at.clone(),
    }
}

/// A response with another schema version than the supported one is always refused as
/// incompatible, whatever else the two responses hold.
pub proof fn lemma_schema_drift_is_refused(
    account: AccountEnvelopeView,
    limits: RateLimitsEnvelopeView,
)
    requires
        schema_error(account.schema_version) is Some || schema_error(limits.schema_version) is Some,
    ensures
        adapted_envelopes(account, limits) matches Err(
            CodexProviderErrorView::IncompatibleSchema { expected, found },
        ) && expected == "v2"@ && found != "v2"@,
{
}

/// An error response never gives a snapshot, and a session that needs a new login is told apart
/// from a failed transport.
pub proof fn lemma_error_responses(account: AccountEnvelopeView, limits: RateLimitsEnvelopeView)
    requires
        schema_error(account.schema_version) is None,
        schema_error(limits.schema_version) is None,
        account.error is Some || limits.error is Some,
    ensures
        ({
            let error = if account.error is Some {
                account.error.unwrap()
            } else {
                limits.error.unwrap()
            };
            let expired = error.code == "auth_required"@ || error.code == "session_expired"@
                || error.code == "unauthorized"@;
            adapted_envelopes(account, limits) == Err::<
                CodexProviderSnapshotView,
                CodexProviderErrorView,
            >(
                if expired {
                    CodexProviderErrorView::Auth(error.message)
                } else {
                    CodexProviderErrorView::Transport(error.message)
                },
            )
        }),
{
}

/// Every snapshot is one of subscription quotas, never of API usage; its windows stand in order;
/// and only a ChatGPT account brings a plan type.
pub proof fn lemma_snapshots(account: AccountEnvelopeView, limits: RateLimitsEnvelopeView)
    ensures
        adapted_envelopes(account, limits) matches Ok(snapshot) ==> {
            &&& snapshot.usage_family == UsageFamily::SubscriptionQuota
            &&& crate::domain::in_order(snapshot.quota_snapshot)
            &&& snapshot.quota_snapshot.len() == windows_of_all(limits_of(limits)).len()
            &&& snapshot.identity.plan_type is Some ==> snapshot.identity.account_kind is Chatgpt
        },
{
    crate::domain::lemma_arranged(
        windows_of_all(limits_of(limits)).map_values(
            |w: ProtocolRateLimitWindowView| normalized(w),
        ),
    );
}

/// Merging the map into the list keeps the list in front, and afterwards every key of the map is
/// the id of a limit or its limit has been added.
pub proof fn lemma_merged(
    snapshots: Seq<ProtocolRateLimitSnapshotView>,
    entries: Seq<(Seq<char>, ProtocolRateLimitSnapshotView)>,
)
    ensures
        snapshots.is_prefix_of(merged(snapshots, entries)),
        forall|i: int|
            0 <= i < entries.len() ==> {
                ||| names_limit(merged(snapshots, entries), (#[trigger] entries[i]).0)
                ||| merged(snapshots, entries).contains(entries[i].1)
            },
    decreases entries.len(),
{
    let out = merged(snapshots, entries);
    if entries.len() > 0 {
        let left = entries.drop_first();
        let next = if names_limit(snapshots, entries[0].0) {
            snapshots
        } else {
            snapshots.push(entries[0].1)
        };
        lemma_merged(next, left);
        assert(snapshots.is_prefix_of(next));
        assert(forall|i: int| 0 <= i < next.len() ==> out[i] == next[i]) by {
            assert(next == out.take(next.len() as int));
        }
        assert(snapshots =~= out.take(snapshots.len() as int));
        assert forall|i: int| 0 <= i < entries.len() implies {
            ||| names_limit(out, (#[trigger] entries[i]).0)
            ||| out.contains(entries[i].1)
        } by {
            if i > 0 {
                assert(left[i - 1] == entries[i]);
            } else if names_limit(snapshots, entries[0].0) {
                let k = choose|k: int|
                    0 <= k < snapshots.len() && (#[trigger] snapshots[k]).limit_id == Some(
                        entries[0].0,
                    );
                assert(out[k].limit_id == Some(entries[0].0));
            } else {
                assert(out[snapshots.len() as int] == entries[0].1);
            }
        }
    } else {
        assert(snapshots =~= out.take(snapshots.len() as int));
    }
}

/// Whether a snapshot has a window of a limit, under the limit's id and name, or under the name of an
/// unknown limit where it has no id.
pub open spec fn has_window(
    quotas: Seq<QuotaWindowView>,
    limit: ProtocolRateLimitSnapshotView,
    window: ProtocolWindowView,
) -> bool {
    exists|k: int|
        0 <= k < quotas.len() && stems_from(#[trigger] quotas[k], limit, window)
}

/// Whether a window of a snapshot is a window of a limit: they agree in id, percentage, duration,
/// reset time and, where the limit has a name, in that; where it has none, the window is named after
/// its kind.
pub open spec fn stems_from(
    quota: QuotaWindowView,
    limit: ProtocolRateLimitSnapshotView,
    window: ProtocolWindowView,
) -> bool {
    &&& limit.limit_id matches Some(id) ==> quota.limit_id == id
    &&& limit.limit_id is None ==> quota.limit_id == "unknown-limit"@
    &&& limit.limit_name matches Some(name) ==> quota.label == name
    &&& limit.limit_name is None ==> quota.label == fallback_label(
        quota.kind,
        window.window_duration_mins,
    )
    &&& quota.kind == window_kind(quota.limit_id, window.window_duration_mins)
    &&& quota.severity == QuotaSeverity::of(window.used_percent)
    &&& quota.used_percent == window.used_percent
    &&& quota.window_duration_mins == window.window_duration_mins
    &&& quota.resets_at == window.resets_at
}

/// Whether a snapshot has every window of a limit.
pub open spec fn has_all_windows(
    quotas: Seq<QuotaWindowView>,
    limit: ProtocolRateLimitSnapshotView,
) -> bool {
    &&& limit.primary matches Some(window) ==> has_window(quotas, limit, window)
    &&& limit.secondary matches Some(window) ==> has_window(quotas, limit, window)
}

proof fn lemma_windows_of_all_contains(
    snapshots: Seq<ProtocolRateLimitSnapshotView>,
    k: int,
    w: ProtocolRateLimitWindowView,
)
    requires
        0 <= k < snapshots.len(),
        windows_of(snapshots[k]).contains(w),
    ensures
        windows_of_all(snapshots).contains(w),
    decreases snapshots.len(),
{
    let head = windows_of_all(snapshots.drop_last());
    let tail = windows_of(snapshots.last());
    if k == snapshots.len() - 1 {
        let j = choose|j: int| 0 <= j < tail.len() && tail[j] == w;
        assert((head + tail)[head.len() + j] == w);
    } else {
        lemma_windows_of_all_contains(snapshots.drop_last(), k, w);
        let j = choose|j: int| 0 <= j < head.len() && head[j] == w;
        assert((head + tail)[j] == w);
    }
}

proof fn lemma_windows_of_all_origin(
    snapshots: Seq<ProtocolRateLimitSnapshotView>,
    w: ProtocolRateLimitWindowView,
)
    requires
        windows_of_all(snapshots).contains(w),
    ensures
        exists|k: int| 0 <= k < snapshots.len() && windows_of(#[trigger] snapshots[k]).contains(w),
    decreases snapshots.len(),
{
    if snapshots.len() > 0 {
        let head = windows_of_all(snapshots.drop_last());
        let tail = windows_of(snapshots.last());
        let j = choose|j: int| 0 <= j < (head + tail).len() && (head + tail)[j] == w;
        if j < head.len() {
            assert(head[j] == w);
            lemma_windows_of_all_origin(snapshots.drop_last(), w);
            let k = choose|k: int|
                0 <= k < snapshots.drop_last().len() && windows_of(
                    #[trigger] snapshots.drop_last()[k],
                ).contains(w);
            assert(snapshots[k] == snapshots.drop_last()[k]);
        } else {
            assert(tail[j - head.len()] == w);
            assert(windows_of(snapshots[snapshots.len() - 1]).contains(w));
        }
    }
}

/// The windows that a snapshot of limits is made of before they are put in order.
spec fn unordered(snapshots: Seq<ProtocolRateLimitSnapshotView>) -> Seq<QuotaWindowView> {
    windows_of_all(snapshots).map_values(|w: ProtocolRateLimitWindowView| normalized(w))
}

proof fn lemma_limit_is_kept(snapshots: Seq<ProtocolRateLimitSnapshotView>, k: int)
    requires
        0 <= k < snapshots.len(),
    ensures
        has_all_windows(arranged(unordered(snapshots)), snapshots[k]),
{
    let limit = snapshots[k];
    let raw = windows_of_all(snapshots);
    let all = unordered(snapshots);
    crate::domain::lemma_arranged_keeps_windows(all);
    let id = match limit.limit_id {
        Some(id) => id,
        None => "unknown-limit"@,
    };
    let own = windows_of(limit);
    if let Some(window) = limit.primary {
        let w = window_of(id, limit.limit_name, window);
        assert(own[0] == w);
        lemma_windows_of_all_contains(snapshots, k, w);
        let j = choose|j: int| 0 <= j < raw.len() && raw[j] == w;
        assert(all[j] == normalized(w));
        assert(arranged(all).contains(normalized(w)));
        let i = choose|i: int| 0 <= i < arranged(all).len() && arranged(all)[i] == normalized(w);
        assert(stems_from(arranged(all)[i], limit, window));
    }
    if let Some(window) = limit.secondary {
        let w = window_of(id, limit.limit_name, window);
        assert(own[own.len() - 1] == w);
        lemma_windows_of_all_contains(snapshots, k, w);
        let j = choose|j: int| 0 <= j < raw.len() && raw[j] == w;
        assert(all[j] == normalized(w));
        assert(arranged(all).contains(normalized(w)));
        let i = choose|i: int| 0 <= i < arranged(all).len() && arranged(all)[i] == normalized(w);
        assert(stems_from(arranged(all)[i], limit, window));
    }
}

/// No quota is lost: the snapshot has each primary and each secondary window of every limit in the
/// response's list.
pub proof fn lemma_listed_limits_are_kept(
    account: AccountEnvelopeView,
    limits: RateLimitsEnvelopeView,
    i: int,
)
    requires
        limits.rate_limits matches Some(listed) && 0 <= i < listed.len(),
    ensures
        adapted_envelopes(account, limits) matches Ok(snapshot) ==> has_all_windows(
            snapshot.quota_snapshot,
            limits.rate_limits.unwrap()[i],
        ),
{
    let listed = limits.rate_limits.unwrap();
    let all = limits_of(limits);
    if let Some(entries) = limits.rate_limits_by_limit_id {
        lemma_merged(listed, entries);
        assert(listed == all.take(listed.len() as int));
    }
    assert(all[i] == listed[i]);
    lemma_limit_is_kept(all, i);
    assert(unordered(all) == windows_of_all(all).map_values(
        |w: ProtocolRateLimitWindowView| normalized(w),
    ));
}

proof fn lemma_merged_takes(
    snapshots: Seq<ProtocolRateLimitSnapshotView>,
    entries: Seq<(Seq<char>, ProtocolRateLimitSnapshotView)>,
    i: int,
)
    requires
        0 <= i < entries.len(),
        forall|k: int|
            0 <= k < snapshots.len() ==> (#[trigger] snapshots[k]).limit_id != Some(entries[i].0),
        forall|j: int|
            0 <= j < i ==> (#[trigger] entries[j]).1.limit_id != Some(entries[i].0),
    ensures
        merged(snapshots, entries).contains(entries[i].1),
    decreases entries.len(),
{
    let rest = entries.drop_first();
    if i == 0 {
        let next = snapshots.push(entries[0].1);
        let out = merged(next, rest);
        lemma_merged(next, rest);
        assert(next == out.take(next.len() as int));
        assert(out[snapshots.len() as int] == next[snapshots.len() as int]);
    } else {
        assert(rest[i - 1] == entries[i]);
        assert forall|j: int| 0 <= j < i - 1 implies (#[trigger] rest[j]).1.limit_id != Some(
            rest[i - 1].0,
        ) by {
            assert(rest[j] == entries[j + 1]);
        }
        if names_limit(snapshots, entries[0].0) {
            lemma_merged_takes(snapshots, rest, i - 1);
        } else {
            let next = snapshots.push(entries[0].1);
            assert forall|k: int| 0 <= k < next.len() implies (#[trigger] next[k]).limit_id != Some(
                rest[i - 1].0,
            ) by {
                if k < snapshots.len() {
                    assert(next[k] == snapshots[k]);
                } else {
                    assert(next[k] == entries[0].1);
                }
            }
            lemma_merged_takes(next, rest, i - 1);
        }
    }
}

/// No quota of the response's map is lost either: where no limit of the list and none before it in
/// the map has the key of an entry as its id, the snapshot has every window of the entry's limit.
pub proof fn lemma_mapped_limits_are_kept(
    account: AccountEnvelopeView,
    limits: RateLimitsEnvelopeView,
    i: int,
)
    requires
        limits.rate_limits_by_limit_id matches Some(entries) && {
            &&& 0 <= i < entries.len()
            &&& forall|j: int|
                0 <= j < i ==> (#[trigger] entries[j]).1.limit_id != Some(entries[i].0)
            &&& limits.rate_limits matches Some(listed) ==> forall|k: int|
                0 <= k < listed.len() ==> (#[trigger] listed[k]).limit_id != Some(entries[i].0)
        },
    ensures
        adapted_envelopes(account, limits) matches Ok(snapshot) ==> has_all_windows(
            snapshot.quota_snapshot,
            limits.rate_limits_by_limit_id.unwrap()[i].1,
        ),
{
    let entries = limits.rate_limits_by_limit_id.unwrap();
    let listed = match limits.rate_limits {
        Some(listed) => listed,
        None => Seq::empty(),
    };
    lemma_merged_takes(listed, entries, i);
    let all = limits_of(limits);
    let k = choose|k: int| 0 <= k < all.len() && all[k] == entries[i].1;
    lemma_limit_is_kept(all, k);
    assert(unordered(all) == windows_of_all(all).map_values(
        |w: ProtocolRateLimitWindowView| normalized(w),
    ));
}

proof fn lemma_merged_origin(
    snapshots: Seq<ProtocolRateLimitSnapshotView>,
    entries: Seq<(Seq<char>, ProtocolRateLimitSnapshotView)>,
    limit: ProtocolRateLimitSnapshotView,
)
    requires
        merged(snapshots, entries).contains(limit),
    ensures
        snapshots.contains(limit) || exists|i: int|
            0 <= i < entries.len() && (#[trigger] entries[i]).1 == limit,
    decreases entries.len(),
{
    if entries.len() > 0 {
        let rest = entries.drop_first();
        let next = if names_limit(snapshots, entries[0].0) {
            snapshots
        } else {
            snapshots.push(entries[0].1)
        };
        lemma_merged_origin(next, rest, limit);
        if next.contains(limit) {
            let k = choose|k: int| 0 <= k < next.len() && next[k] == limit;
            if k < snapshots.len() {
                assert(snapshots[k] == limit);
            } else {
                assert(entries[0].1 == limit);
            }
        } else {
            let i = choose|i: int| 0 <= i < rest.len() && (#[trigger] rest[i]).1 == limit;
            assert(entries[i + 1] == rest[i]);
        }
    }
}

/// Whether a limit is one of the response's, in its list or in its map.
pub open spec fn is_given(
    limits: RateLimitsEnvelopeView,
    limit: ProtocolRateLimitSnapshotView,
) -> bool {
    ||| limits.rate_limits matches Some(listed) && listed.contains(limit)
    ||| limits.rate_limits_by_limit_id matches Some(entries) && exists|i: int|
        0 <= i < entries.len() && (#[trigger] entries[i]).1 == limit
}

/// No quota is made up: every window of a snapshot is the primary or the secondary window of a limit
/// in the response.
pub proof fn lemma_no_window_is_made_up(
    account: AccountEnvelopeView,
    limits: RateLimitsEnvelopeView,
    k: int,
)
    ensures
        adapted_envelopes(account, limits) matches Ok(snapshot) ==> (0 <= k
            < snapshot.quota_snapshot.len() ==> exists|limit: ProtocolRateLimitSnapshotView|
            {
                &&& #[trigger] is_given(limits, limit)
                &&& {
                    ||| limit.primary matches Some(window) && stems_from(
                        snapshot.quota_snapshot[k],
                        limit,
                        window,
                    )
                    ||| limit.secondary matches Some(window) && stems_from(
                        snapshot.quota_snapshot[k],
                        limit,
                        window,
                    )
                }
            }),
{
    if let Ok(snapshot) = adapted_envelopes(account, limits) {
        if 0 <= k < snapshot.quota_snapshot.len() {
            let all = limits_of(limits);
            let raw = windows_of_all(all);
            let quotas = unordered(all);
            assert(quotas == raw.map_values(|w: ProtocolRateLimitWindowView| normalized(w)));
            crate::domain::lemma_arranged_keeps_windows(quotas);
            let quota = snapshot.quota_snapshot[k];
            assert(arranged(quotas).contains(quota));
            let j = choose|j: int| 0 <= j < quotas.len() && quotas[j] == quota;
            assert(raw.contains(raw[j]));
            lemma_windows_of_all_origin(all, raw[j]);
            let n = choose|n: int|
                0 <= n < all.len() && windows_of(#[trigger] all[n]).contains(raw[j]);
            let limit = all[n];
            let listed = match limits.rate_limits {
                Some(listed) => listed,
                None => Seq::empty(),
            };
            if let Some(entries) = limits.rate_limits_by_limit_id {
                assert(merged(listed, entries).contains(limit));
                lemma_merged_origin(listed, entries, limit);
            } else {
                assert(listed.contains(limit));
            }
            assert(is_given(limits, limit));
        }
    }
}

proof fn lemma_merged_without(
    snapshots: Seq<ProtocolRateLimitSnapshotView>,
    entries: Seq<(Seq<char>, ProtocolRateLimitSnapshotView)>,
    i: int,
)
    requires
        0 <= i < entries.len(),
        names_limit(snapshots, entries[i].0),
    ensures
        merged(snapshots, entries) == merged(snapshots, entries.remove(i)),
    decreases entries.len(),
{
    let rest = entries.drop_first();
    let fewer = entries.remove(i);
    if i == 0 {
        assert(fewer =~= rest);
    } else {
        assert(rest[i - 1] == entries[i]);
        assert(fewer[0] == entries[0]);
        assert(fewer.drop_first() =~= rest.remove(i - 1));
        if names_limit(snapshots, entries[0].0) {
            lemma_merged_without(snapshots, rest, i - 1);
        } else {
            let next = snapshots.push(entries[0].1);
            let k = choose|k: int|
                0 <= k < snapshots.len() && (#[trigger] snapshots[k]).limit_id == Some(entries[i].0);
            assert(next[k].limit_id == Some(entries[i].0));
            lemma_merged_without(next, rest, i - 1);
        }
    }
}

/// No quota is counted twice: an entry of the map whose key is the id of a limit in the list adds
/// nothing; without it the windows are the same.
pub proof fn lemma_listed_limit_is_not_taken_twice(
    account: AccountEnvelopeView,
    limits: RateLimitsEnvelopeView,
    i: int,
    k: int,
)
    requires
        limits.rate_limits matches Some(listed) && limits.rate_limits_by_limit_id matches Some(
            entries,
        ) && 0 <= i < entries.len() && 0 <= k < listed.len() && listed[k].limit_id == Some(
            entries[i].0,
        ),
    ensures
        ({
            let fewer = RateLimitsEnvelopeView {
                rate_limits_by_limit_id: Some(limits.rate_limits_by_limit_id.unwrap().remove(i)),
                ..limits
            };
            match (adapted_envelopes(account, limits), adapted_envelopes(account, fewer)) {
                (Ok(a), Ok(b)) => a.quota_snapshot == b.quota_snapshot,
                (Err(a), Err(b)) => a == b,
                _ => false,
            }
        }),
{
    let listed = limits.rate_limits.unwrap();
    assert(names_limit(listed, limits.rate_limits_by_limit_id.unwrap()[i].0)) by {
        assert(listed[k].limit_id == Some(limits.rate_limits_by_limit_id.unwrap()[i].0));
    }
    lemma_merged_without(listed, limits.rate_limits_by_limit_id.unwrap(), i);
}

/// One more limit in the list brings exactly its own windows; a response without limits brings none.
pub proof fn lemma_windows_add_up(
    account: AccountEnvelopeView,
    limits: RateLimitsEnvelopeView,
    listed: Seq<ProtocolRateLimitSnapshotView>,
    limit: ProtocolRateLimitSnapshotView,
)
    requires
        limits.rate_limits == Some(listed),
        limits.rate_limits_by_limit_id is None,
    ensures
        ({
            let more = RateLimitsEnvelopeView { rate_limits: Some(listed.push(limit)), ..limits };
            let none = RateLimitsEnvelopeView { rate_limits: None, ..limits };
            match (
                adapted_envelopes(account, limits),
                adapted_envelopes(account, more),
                adapted_envelopes(account, none),
            ) {
                (Ok(a), Ok(b), Ok(c)) => {
                    &&& b.quota_snapshot.len() == a.quota_snapshot.len() + (
                    if limit.primary is Some {
                        1int
                    } else {
                        0
                    }) + (if limit.secondary is Some {
                        1int
                    } else {
                        0
                    })
                    &&& c.quota_snapshot.len() == 0
                },
                (Err(a), Err(b), Err(c)) => a == b && b == c,
                _ => false,
            }
        }),
{
    let more = listed.push(limit);
    assert(more.drop_last() =~= listed);
    crate::domain::lemma_arranged(unordered(listed));
    crate::domain::lemma_arranged(unordered(more));
    crate::domain::lemma_arranged(unordered(Seq::empty()));
    assert(unordered(more) == windows_of_all(more).map_values(
        |w: ProtocolRateLimitWindowView| normalized(w),
    ));
}

proof fn lemma_first_plan(snapshots: Seq<ProtocolRateLimitSnapshotView>)
    ensures
        match first_plan(snapshots) {
            Some(plan) => exists|i: int|
                0 <= i < snapshots.len() && (#[trigger] snapshots[i]).plan_type == Some(plan)
                    && forall|j: int| 0 <= j < i ==> (#[trigger] snapshots[j]).plan_type is None,
            None => forall|i: int|
                0 <= i < snapshots.len() ==> (#[trigger] snapshots[i]).plan_type is None,
        },
    decreases snapshots.len(),
{
    if snapshots.len() > 0 && snapshots[0].plan_type is None {
        let rest = snapshots.drop_first();
        lemma_first_plan(rest);
        if let Some(plan) = first_plan(rest) {
            let k = choose|i: int|
                0 <= i < rest.len() && (#[trigger] rest[i]).plan_type == Some(plan) && forall|
                    j: int,
                |
                    0 <= j < i ==> (#[trigger] rest[j]).plan_type is None;
            assert(snapshots[k + 1] == rest[k]);
            assert forall|j: int| 0 <= j < k + 1 implies (#[trigger] snapshots[j]).plan_type is None by {
                if j > 0 {
                    assert(rest[j - 1] == snapshots[j]);
                }
            }
        } else {
            assert forall|i: int| 0 <= i < snapshots.len() implies (
            #[trigger] snapshots[i]).plan_type is None by {
                if i > 0 {
                    assert(rest[i - 1] == snapshots[i]);
                }
            }
        }
    } else if snapshots.len() > 0 {
        assert(snapshots[0].plan_type == first_plan(snapshots));
    }
}

/// The identity is the account's own: a ChatGPT account goes by its address, an API key by its fixed
/// name and without a plan type. The account's own plan type counts before any that a limit names.
pub proof fn lemma_identities(account: AccountEnvelopeView, limits: RateLimitsEnvelopeView)
    ensures
        adapted_envelopes(account, limits) matches Ok(snapshot) ==> (account.account matches Some(
            given,
        ) && match given {
            ProtocolAccountView::Chatgpt { email, plan_type } => {
                &&& snapshot.identity.account_id == email
                &&& snapshot.identity.display_name == email
                &&& snapshot.identity.account_kind is Chatgpt
                &&& plan_type is Some ==> snapshot.identity.plan_type == plan_type
            },
            ProtocolAccountView::ApiKey => {
                &&& snapshot.identity.account_id == "api-key"@
                &&& snapshot.identity.display_name == "API Key"@
                &&& snapshot.identity.account_kind is ApiKey
                &&& snapshot.identity.plan_type is None
            },
        }),
{
}

/// The list of a response; a missing one is empty.
pub open spec fn list_of(limits: RateLimitsEnvelopeView) -> Seq<ProtocolRateLimitSnapshotView> {
    match limits.rate_limits {
        Some(listed) => listed,
        None => Seq::empty(),
    }
}

/// The map of a response; a missing one is empty.
pub open spec fn map_of(limits: RateLimitsEnvelopeView) -> Seq<
    (Seq<char>, ProtocolRateLimitSnapshotView),
> {
    match limits.rate_limits_by_limit_id {
        Some(entries) => entries,
        None => Seq::empty(),
    }
}

/// A ChatGPT account that comes without a plan type takes that of the first limit in the list that
/// names one.
pub proof fn lemma_plan_of_listed_limit(
    account: AccountEnvelopeView,
    limits: RateLimitsEnvelopeView,
    i: int,
)
    requires
        account.account matches Some(ProtocolAccountView::Chatgpt { plan_type, .. }) && plan_type
            is None,
        0 <= i < list_of(limits).len(),
        list_of(limits)[i].plan_type is Some,
        forall|j: int| 0 <= j < i ==> (#[trigger] list_of(limits)[j]).plan_type is None,
    ensures
        adapted_envelopes(account, limits) matches Ok(snapshot) ==> snapshot.identity.plan_type
            == list_of(limits)[i].plan_type,
{
    lemma_first_plan(list_of(limits));
}

/// Where no limit of the list names a plan type, it is that of the first limit in the map that names
/// one; where none of the map does either, there is none.
pub proof fn lemma_plan_of_mapped_limit(
    account: AccountEnvelopeView,
    limits: RateLimitsEnvelopeView,
    i: int,
)
    requires
        account.account matches Some(ProtocolAccountView::Chatgpt { plan_type, .. }) && plan_type
            is None,
        forall|j: int|
            0 <= j < list_of(limits).len() ==> (#[trigger] list_of(limits)[j]).plan_type is None,
        0 <= i <= map_of(limits).len(),
        i < map_of(limits).len() ==> map_of(limits)[i].1.plan_type is Some,
        forall|j: int| 0 <= j < i ==> (#[trigger] map_of(limits)[j]).1.plan_type is None,
    ensures
        adapted_envelopes(account, limits) matches Ok(snapshot) ==> snapshot.identity.plan_type == (
        if i < map_of(limits).len() {
            map_of(limits)[i].1.plan_type
        } else {
            None
        }),
{
    lemma_first_plan(list_of(limits));
    let entries = map_of(limits);
    let all = map_limits(entries);
    lemma_first_plan(all);
    assert forall|j: int| 0 <= j < i implies (#[trigger] all[j]).plan_type is None by {
        assert(all[j] == entries[j].1);
    }
    if i < entries.len() {
        assert(all[i] == entries[i].1);
    }
}

/// Whether a response is of the supported schema: it says so, or it does not say.
pub open spec fn is_supported(version: Option<Seq<char>>) -> bool {
    version matches Some(v) ==> v == "v2"@
}

/// A snapshot comes exactly of two responses that are of the supported schema and report no error,
/// of which the first holds an account. Another schema is named in the refusal, that of the account
/// before that of the limits.
pub proof fn lemma_when_a_snapshot_comes(account: AccountEnvelopeView, limits: RateLimitsEnvelopeView)
    ensures
        adapted_envelopes(account, limits) is Ok <==> {
            &&& is_supported(account.schema_version)
            &&& is_supported(limits.schema_version)
            &&& account.error is None
            &&& limits.error is None
            &&& account.account is Some
        },
        match (account.schema_version, limits.schema_version, adapted_envelopes(account, limits)) {
            (
                Some(a),
                _,
                Err(CodexProviderErrorView::IncompatibleSchema { expected, found }),
            ) if a != "v2"@ => expected == "v2"@ && found == a,
            (Some(a), _, _) if a != "v2"@ => false,
            (
                _,
                Some(b),
                Err(CodexProviderErrorView::IncompatibleSchema { expected, found }),
            ) if b != "v2"@ => expected == "v2"@ && found == b,
            (_, Some(b), _) if b != "v2"@ => false,
            (_, _, Err(CodexProviderErrorView::IncompatibleSchema { .. })) => false,
            _ => true,
        },
        adapted_envelopes(account, limits) matches Err(CodexProviderErrorView::InvalidPayload(detail))
            ==> account.account is None && detail == "missing account object"@,
{
}

/// A response that reports an error is refused with the error's own message: as one of
/// authentication for the three codes that ask for a new login, as one of transport for every other
/// code. The account's error counts before that of the limits.
pub proof fn lemma_reported_errors(account: AccountEnvelopeView, limits: RateLimitsEnvelopeView)
    requires
        is_supported(account.schema_version),
        is_supported(limits.schema_version),
        account.error is Some || limits.error is Some,
    ensures
        ({
            let error = if account.error is Some {
                account.error.unwrap()
            } else {
                limits.error.unwrap()
            };
            let login = error.code == "auth_required"@ || error.code == "session_expired"@
                || error.code == "unauthorized"@;
            match adapted_envelopes(account, limits) {
                Err(CodexProviderErrorView::Auth(message)) => login && message == error.message,
                Err(CodexProviderErrorView::Transport(message)) => !login && message
                    == error.message,
                _ => false,
            }
        }),
{
}

/// A response that could not be read is refused with the reader's text, whatever the other one holds;
/// two that were read are taken for what they hold.
pub proof fn lemma_unread_responses(
    account: Result<AccountEnvelope, String>,
    limits: Result<RateLimitsEnvelope, String>,
)
    ensures
        match (account, limits, adapted(account, limits)) {
            (Err(text), _, Err(CodexProviderErrorView::InvalidPayload(detail))) => detail
                == "account payload: "@ + text@,
            (Ok(_), Err(text), Err(CodexProviderErrorView::InvalidPayload(detail))) => detail
                == "rate limit payload: "@ + text@,
            (Ok(account), Ok(limits), outcome) => outcome == adapted_envelopes(account@, limits@),
            _ => false,
        },
{
}

/// The text of an error begins with what kind it is and holds all that is known of it.
pub proof fn lemma_error_texts(error: CodexProviderErrorView)
    ensures
        match error {
            CodexProviderErrorView::Transport(s) => error.text() == "transport failure: "@ + s,
            CodexProviderErrorView::Auth(s) => error.text() == "authentication failure: "@ + s,
            CodexProviderErrorView::IncompatibleSchema { expected, found } => error.text()
                == "schema incompatibility: expected "@ + expected + ", got "@ + found,
            CodexProviderErrorView::InvalidPayload(s) => error.text() == "invalid payload: "@ + s,
        },
{
}

/// So much for the adapter itself: two responses that were read give a snapshot with every window of
/// every listed limit, and never one of a response that reports an error or is of another schema.
pub proof fn lemma_adapter_keeps_listed_limits(
    account: Result<AccountEnvelope, String>,
    limits: Result<RateLimitsEnvelope, String>,
    r: Result<CodexProviderSnapshot, CodexProviderError>,
    i: int,
)
    requires
        call_ensures(CodexProtocolAdapter::from_json, (&account, &limits), r),
        limits matches Ok(given) && (given@.rate_limits matches Some(listed) && 0 <= i
            < listed.len()),
    ensures
        r matches Ok(snapshot) ==> {
            &&& account matches Ok(given) && is_supported(given@.schema_version) && given@.error
                is None
            &&& is_supported(limits->Ok_0@.schema_version)
            &&& limits->Ok_0@.error is None
            &&& has_all_windows(
                snapshot.quota_snapshot@,
                limits->Ok_0@.rate_limits.unwrap()[i],
            )
        },
{
    if let (Ok(a), Ok(b)) = (account, limits) {
        lemma_listed_limits_are_kept(a@, b@, i);
        lemma_when_a_snapshot_comes(a@, b@);
    }
}

} // verus!
