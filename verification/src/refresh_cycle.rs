//! One run over all configured profiles: which secrets it needs, what becomes of each profile,
//! and the lines that report it.
use vstd::prelude::*;
use vstd::string::*;

use crate::auth::ids_distinct;
use crate::commands::{Command, CommandView, RefreshCommand};
use crate::config::{
    entry_of, AuthSecret, AuthSecretView, ConfiguredProfile, ConfiguredProfileView, PlainConfig,
    SecretMaterial, SecretMaterialView, SecretRef, SecretRefView,
};
use crate::doctor::{needs_read, read_at};
use crate::domain::{
    first_of_kind, AccountKind, ProviderKind, ProviderKindView, QuotaSnapshot, QuotaWindow,
    QuotaWindowKind, QuotaWindowView,
};
use crate::paths::{shown, FilePath};
use crate::provider_codex::{
    adapted, outcome, AccountEnvelope, CodexProtocolAdapter, CodexProviderError,
    CodexProviderErrorView, CodexProviderSnapshot, CodexProviderSnapshotView, RateLimitsEnvelope,
};
use crate::refresh::{
    decision, failed, initial_state, refreshing, succeeded, unrefreshed, AppError, AppErrorView,
    RefreshDecision, RefreshRequest, RefreshState, RefreshStatus, RefreshedProfile,
    RefreshedProfileView,
};
use crate::store::{AppPaths, StoreError, StoreErrorView};
use crate::string_map::{self, lookup, ordered, put, StringMap};
use crate::text::{self, decimal, joined, trimmed};

verus! {

/// Operator-facing report for one `refresh` command run.
#[derive(Debug, Clone, PartialEq, Eq)]
pub struct RefreshCommandOutput {
    pub lines: Vec<String>,
}

impl RefreshCommandOutput {
    pub fn render(&self) -> (r: String)
        ensures
            r@ == joined(self.lines.deep_view()),
    {
        text::join_lines(&self.lines)
    }
}

/// Structured refresh result shared by the CLI and TUI so both surfaces reuse the same
/// orchestration path and per-profile feedback.
#[derive(Debug, Clone, PartialEq)]
pub struct RefreshRun {
    pub state: RefreshState,
    pub output: RefreshCommandOutput,
    pub profile_lines: StringMap<String>,
    pub now_epoch_secs: u64,
}

/// Why a run failed; what the system or a reader reports is kept as its text.
#[derive(Debug, PartialEq, Eq)]
pub enum RefreshCommandError {
    Io(String),
    ConfigToml(String),
    SecretJson(String),
    Store(StoreError),
    App(AppError),
}

/// The model of a [`RefreshCommandError`].
#[verifier::ext_equal]
pub enum RefreshCommandErrorView {
    Io(Seq<char>),
    ConfigToml(Seq<char>),
    SecretJson(Seq<char>),
    Store(StoreErrorView),
    App(AppErrorView),
}

impl View for RefreshCommandError {
    type V = RefreshCommandErrorView;

    open spec fn view(&self) -> RefreshCommandErrorView {
        match *self {
            RefreshCommandError::Io(s) => RefreshCommandErrorView::Io(s@),
            RefreshCommandError::ConfigToml(s) => RefreshCommandErrorView::ConfigToml(s@),
            RefreshCommandError::SecretJson(s) => RefreshCommandErrorView::SecretJson(s@),
            RefreshCommandError::Store(e) => RefreshCommandErrorView::Store(e@),
            RefreshCommandError::App(e) => RefreshCommandErrorView::App(e@),
        }
    }
}

impl RefreshCommandErrorView {
    /// The text of the error.
    pub open spec fn text(self) -> Seq<char> {
        match self {
            RefreshCommandErrorView::Io(s) => "io failure: "@ + s,
            RefreshCommandErrorView::ConfigToml(s) => "config parse failure: "@ + s,
            RefreshCommandErrorView::SecretJson(s) => "secret material parse failure: "@ + s,
            RefreshCommandErrorView::Store(e) => "secret store failure: "@ + e.text(),
            RefreshCommandErrorView::App(e) => "refresh orchestration failure: "@ + e.text(),
        }
    }
}

impl RefreshCommandError {
    /// The text of the error.
    pub fn message(&self) -> (r: String)
        ensures
            r@ == self@.text(),
    {
        match self {
            RefreshCommandError::Io(s) => text::concat("io failure: ", s.as_str()),
            RefreshCommandError::ConfigToml(s) => text::concat("config parse failure: ", s.as_str()),
            RefreshCommandError::SecretJson(s) => text::concat(
                "secret material parse failure: ",
                s.as_str(),
            ),
            RefreshCommandError::Store(e) => {
                let detail = e.message();
                text::concat("secret store failure: ", detail.as_str())
            },
            RefreshCommandError::App(e) => {
                let detail = e.message();
                text::concat("refresh orchestration failure: ", detail.as_str())
            },
        }
    }
}

/// The word for a status.
pub open spec fn status_text(status: RefreshStatus) -> Seq<char> {
    match status {
        RefreshStatus::Healthy => "healthy"@,
        RefreshStatus::Stale => "stale"@,
        RefreshStatus::AuthRequired => "auth_required"@,
        RefreshStatus::RateLimited => "rate_limited"@,
        RefreshStatus::Error => "error"@,
        RefreshStatus::Refreshing => "refreshing"@,
    }
}

pub fn render_refresh_status(status: &RefreshStatus) -> (r: &'static str)
    ensures
        r@ == status_text(*status),
{
    match status {
        RefreshStatus::Healthy => "healthy",
        RefreshStatus::Stale => "stale",
        RefreshStatus::AuthRequired => "auth_required",
        RefreshStatus::RateLimited => "rate_limited",
        RefreshStatus::Error => "error",
        RefreshStatus::Refreshing => "refreshing",
    }
}

/// The word for a provider.
pub open spec fn provider_text(provider: ProviderKindView) -> Seq<char> {
    match provider {
        ProviderKindView::CodexProtocol => "codex_protocol"@,
        ProviderKindView::OpenAiApiUsage => "openai_api_usage"@,
        ProviderKindView::Other(_) => "other"@,
    }
}

pub fn render_provider(provider: &ProviderKind) -> (r: &'static str)
    ensures
        r@ == provider_text(provider@),
{
    match provider {
        ProviderKind::CodexProtocol => "codex_protocol",
        ProviderKind::OpenAiApiUsage => "openai_api_usage",
        ProviderKind::Other(_) => "other",
    }
}

/// A window in a summary, or what stands there where it is missing.
pub open spec fn window_part(window: Option<QuotaWindowView>, missing: Seq<char>) -> Seq<char> {
    match window {
        Some(w) => w.label + " "@ + w.used_percent.text() + "% -> "@ + w.resets_at,
        None => missing,
    }
}

fn render_window_part(window: Option<&QuotaWindow>, missing: &str) -> (r: String)
    ensures
        r@ == window_part(window.deep_view(), missing@),
{
    match window {
        Some(w) => {
            let percent = w.used_percent.to_text();
            let mut r = text::concat(w.label.as_str(), " ");
            r.append(percent.as_str());
            r.append("% -> ");
            r.append(w.resets_at.as_str());
            r
        },
        None => missing.to_owned(),
    }
}

/// The two windows of a snapshot.
pub open spec fn snapshot_summary(windows: Seq<QuotaWindowView>) -> Seq<char> {
    window_part(first_of_kind(windows, QuotaWindowKind::FiveHour), "no 5h window"@) + " | "@
        + window_part(first_of_kind(windows, QuotaWindowKind::Weekly), "no weekly window"@)
}

pub fn render_snapshot_summary(snapshot: &QuotaSnapshot) -> (r: String)
    ensures
        r@ == snapshot_summary(snapshot@),
{
    let mut r = render_window_part(snapshot.primary_window(), "no 5h window");
    let secondary = render_window_part(snapshot.secondary_window(), "no weekly window");
    r.append(" | ");
    r.append(secondary.as_str());
    r
}

/// The line for a profile whose refresh did not start.
pub open spec fn skipped_line(configured: ConfiguredProfileView, reason: Seq<char>) -> Seq<char> {
    "skipped: "@ + configured.profile.id + " | "@ + configured.profile.display_name + " | "@
        + reason
}

pub fn render_skipped_profile_line(configured: &ConfiguredProfile, decision: &RefreshDecision) -> (r:
    String)
    ensures
        r@ == skipped_line(configured@, decision.reason@),
{
    let mut line = text::concat("skipped: ", configured.profile.id.as_str());
    line.append(" | ");
    line.append(configured.profile.display_name.as_str());
    line.append(" | ");
    line.append(decision.reason.as_str());
    line
}

/// The line for a profile whose refresh ran.
pub open spec fn refreshed_line(known: RefreshedProfileView, reason: Seq<char>) -> Seq<char> {
    status_text(known.status) + ": "@ + known.profile.id + " | "@ + known.profile.display_name
        + " | decision="@ + reason + " | "@ + (match known.snapshot {
        Some(windows) => snapshot_summary(windows),
        None => "no quota snapshot"@,
    }) + (match known.last_error {
        Some(error) => " | error="@ + error,
        None => ""@,
    })
}

pub fn render_refreshed_profile_line(profile: &RefreshedProfile, decision_reason: &str) -> (r: String)
    ensures
        r@ == refreshed_line(profile@, decision_reason@),
{
    let snapshot = match &profile.snapshot {
        Some(snapshot) => render_snapshot_summary(snapshot),
        None => "no quota snapshot".to_owned(),
    };
    let error_detail = match &profile.last_error {
        Some(error) => text::concat(" | error=", error.as_str()),
        None => "".to_owned(),
    };
    let mut line = text::concat(render_refresh_status(&profile.status), ": ");
    line.append(profile.profile.id.as_str());
    line.append(" | ");
    line.append(profile.profile.display_name.as_str());
    line.append(" | decision=");
    line.append(decision_reason);
    line.append(" | ");
    line.append(snapshot.as_str());
    line.append(error_detail.as_str());
    line
}

/// The error that a blank secret brings.
pub open spec fn blank_error(secret: AuthSecretView) -> Option<CodexProviderErrorView> {
    match secret {
        AuthSecretView::ApiKey { api_key } => if trimmed(api_key).len() == 0 {
            Some(CodexProviderErrorView::Auth("empty api key"@))
        } else {
            None
        },
        AuthSecretView::BrowserSession { session_payload } => if trimmed(session_payload).len()
            == 0 {
            Some(CodexProviderErrorView::Auth("empty browser session payload"@))
        } else {
            None
        },
        AuthSecretView::HeadlessSession { session_payload } => if trimmed(session_payload).len()
            == 0 {
            Some(CodexProviderErrorView::Auth("empty browser session payload"@))
        } else {
            None
        },
    }
}

/// The model of an optional error.
pub open spec fn error_view(error: Option<CodexProviderError>) -> Option<CodexProviderErrorView> {
    match error {
        Some(error) => Some(error@),
        None => None,
    }
}

pub fn validate_secret_payload(secret: &AuthSecret) -> (r: Option<CodexProviderError>)
    ensures
        error_view(r) == blank_error(secret@),
{
    let (payload, message) = match secret {
        AuthSecret::BrowserSession { session_payload } => (
            session_payload.as_str(),
            "empty browser session payload",
        ),
        AuthSecret::HeadlessSession { session_payload } => (
            session_payload.as_str(),
            "empty browser session payload",
        ),
        AuthSecret::ApiKey { api_key } => (api_key.as_str(), "empty api key"),
    };
    if text::trim(payload).unicode_len() == 0 {
        Some(CodexProviderError::Auth(message.to_owned()))
    } else {
        None
    }
}

pub fn map_store_error_to_auth(error: &StoreError) -> (r: CodexProviderError)
    ensures
        r@ == CodexProviderErrorView::Auth(error@.text()),
{
    CodexProviderError::Auth(error.message())
}

/// The error that a profile's secret brings: that it is missing, cannot be read, or is blank.
pub open spec fn secret_error(
    configured: ConfiguredProfileView,
    material: Option<SecretMaterialView>,
    read: Option<Result<AuthSecret, StoreError>>,
) -> Option<CodexProviderErrorView> {
    match material {
        Some(material) => match entry_of(material.entries, configured.profile.id) {
            Some(secret) => blank_error(secret),
            None => Some(
                CodexProviderErrorView::Auth("missing secret entry in sidecar material"@),
            ),
        },
        None => match (configured.secret_ref, read.unwrap()) {
            (SecretRefView::Managed { id }, _) => Some(
                CodexProviderErrorView::Auth(
                    "managed secret ref `"@ + id + "` is unavailable without sidecar material"@,
                ),
            ),
            (_, Ok(secret)) => blank_error(secret@),
            (_, Err(error)) => Some(CodexProviderErrorView::Auth(error@.text())),
        },
    }
}

/// Checks the secret that a refresh would use; `read` is what reading it from its store gave,
/// where it has to be read.
pub fn validate_refresh_secret(
    configured: &ConfiguredProfile,
    secret_material: Option<&SecretMaterial>,
    read: &Option<Result<AuthSecret, StoreError>>,
) -> (r: Option<CodexProviderError>)
    requires
        needs_read(configured@, secret_material.deep_view()) ==> read is Some,
    ensures
        error_view(r) == secret_error(configured@, secret_material.deep_view(), *read),
{
    if let Some(material) = secret_material {
        return match material.find(configured.profile.id.as_str()) {
            Some(secret) => validate_secret_payload(secret),
            None => Some(
                CodexProviderError::Auth("missing secret entry in sidecar material".to_owned()),
            ),
        };
    }
    if let SecretRef::Managed { id } = &configured.secret_ref {
        let mut message = text::concat("managed secret ref `", id.as_str());
        message.append("` is unavailable without sidecar material");
        return Some(CodexProviderError::Auth(message));
    }
    match read {
        Some(Ok(secret)) => validate_secret_payload(secret),
        Some(Err(error)) => Some(map_store_error_to_auth(error)),
        None => {
            assert(false);
            None
        },
    }
}

/// The recorded responses that a refresh replays: the account response for an API key and for
/// every other account, and the rate limits; where one could not be read, the reader's text.
#[derive(Debug)]
pub struct ReplayedResponses {
    pub chatgpt_account: Result<AccountEnvelope, String>,
    pub api_key_account: Result<AccountEnvelope, String>,
    pub rate_limits: Result<RateLimitsEnvelope, String>,
}

/// What the provider of a profile brings.
pub open spec fn provider_outcome(
    configured: ConfiguredProfileView,
    replay: ReplayedResponses,
) -> Result<CodexProviderSnapshotView, CodexProviderErrorView> {
    if configured.profile.provider is CodexProtocol {
        adapted(
            if configured.profile.account_kind is ApiKey {
                replay.api_key_account
            } else {
                replay.chatgpt_account
            },
            replay.rate_limits,
        )
    } else {
        Err(
            CodexProviderErrorView::InvalidPayload(
                "refresh provider `"@ + provider_text(configured.profile.provider)
                    + "` is not supported yet"@,
            ),
        )
    }
}

/// The snapshot that the recorded responses give for a profile.
pub fn load_fixture_snapshot_for_profile(
    configured: &ConfiguredProfile,
    replay: &ReplayedResponses,
) -> (r: Result<CodexProviderSnapshot, CodexProviderError>)
    ensures
        outcome(r) == adapted(
            if configured@.profile.account_kind is ApiKey {
                replay.api_key_account
            } else {
                replay.chatgpt_account
            },
            replay.rate_limits,
        ),
{
    match &configured.profile.account_kind {
        AccountKind::ApiKey => CodexProtocolAdapter::from_json(
            &replay.api_key_account,
            &replay.rate_limits,
        ),
        _ => CodexProtocolAdapter::from_json(&replay.chatgpt_account, &replay.rate_limits),
    }
}

/// What refreshing a profile brings: the error of its secret, or else what its provider brings.
pub open spec fn attempt(
    configured: ConfiguredProfileView,
    material: Option<SecretMaterialView>,
    read: Option<Result<AuthSecret, StoreError>>,
    replay: ReplayedResponses,
) -> Result<CodexProviderSnapshotView, CodexProviderErrorView> {
    match secret_error(configured, material, read) {
        Some(error) => Err(error),
        None => provider_outcome(configured, replay),
    }
}

/// What is known of a profile after an attempt.
pub open spec fn attempted(
    known: RefreshedProfileView,
    now_epoch_secs: u64,
    attempt: Result<CodexProviderSnapshotView, CodexProviderErrorView>,
) -> RefreshedProfileView {
    match attempt {
        Ok(snapshot) => succeeded(known, now_epoch_secs, snapshot),
        Err(error) => failed(known, error),
    }
}

/// Refreshes a profile and records what came of it.
pub fn execute_refresh_profile(
    state: &mut RefreshState,
    configured: &ConfiguredProfile,
    secret_material: Option<&SecretMaterial>,
    read: &Option<Result<AuthSecret, StoreError>>,
    now_epoch_secs: u64,
    replay: &ReplayedResponses,
) -> (r: Result<(), AppError>)
    requires
        needs_read(configured@, secret_material.deep_view()) ==> read is Some,
    ensures
        match (r, lookup(old(state)@, configured@.profile.id)) {
            (Ok(_), Some(known)) => final(state)@ == put(
                old(state)@,
                configured@.profile.id,
                attempted(
                    known,
                    now_epoch_secs,
                    attempt(configured@, secret_material.deep_view(), *read, *replay),
                ),
            ),
            (Err(error), None) => error@ == AppErrorView::UnknownProfile(configured@.profile.id)
                && final(state)@ == old(state)@,
            _ => false,
        },
{
    let id = configured.profile.id.as_str();
    if let Some(error) = validate_refresh_secret(configured, secret_material, read) {
        return state.apply_codex_failure(id, error);
    }
    let provider_result = match &configured.profile.provider {
        ProviderKind::CodexProtocol => load_fixture_snapshot_for_profile(configured, replay),
        provider => {
            let mut message = text::concat("refresh provider `", render_provider(provider));
            message.append("` is not supported yet");
            Err(CodexProviderError::InvalidPayload(message))
        },
    };
    match provider_result {
        Ok(snapshot) => state.apply_codex_success(id, now_epoch_secs, snapshot),
        Err(error) => state.apply_codex_failure(id, error),
    }
}

/// What a run works on: the configuration and where it was read from, the secret material beside
/// it, the program's directories, the time of day, and the recorded responses.
#[derive(Debug)]
pub struct RefreshSource {
    pub config_path: FilePath,
    pub config: PlainConfig,
    pub secret_material: Option<SecretMaterial>,
    pub paths: Result<AppPaths, StoreError>,
    pub current_epoch_secs: u64,
    pub replay: ReplayedResponses,
}

/// The state of a run and what it has reported so far.
#[verifier::ext_equal]
pub struct CycleView {
    pub state: Seq<(Seq<char>, RefreshedProfileView)>,
    pub lines: Seq<Seq<char>>,
    pub profile_lines: Seq<(Seq<char>, Seq<char>)>,
}

/// The time of a run: the one that is asked for, else the time of day.
pub open spec fn run_time(asked: Option<u64>, current: u64) -> u64 {
    match asked {
        Some(now) => now,
        None => current,
    }
}

/// A run before its first profile.
pub open spec fn cycle_start(source: RefreshSource) -> CycleView {
    CycleView {
        state: initial_state(source.config@.profiles),
        lines: seq![
            "source: "@ + shown(source.config_path@),
            "profiles: "@ + decimal(source.config@.profiles.len()),
        ],
        profile_lines: Seq::empty(),
    }
}

/// The decision on a profile of a run.
pub open spec fn cycle_decision(
    cycle: CycleView,
    configured: ConfiguredProfileView,
    now_epoch_secs: u64,
    force: bool,
) -> (bool, Seq<char>) {
    decision(cycle.state, configured.profile.id, now_epoch_secs, force, false)
}

/// A run after one more line on a profile.
pub open spec fn reported(
    cycle: CycleView,
    profile_id: Seq<char>,
    line: Seq<char>,
) -> CycleView {
    CycleView {
        lines: cycle.lines.push(line),
        profile_lines: put(cycle.profile_lines, profile_id, line),
        ..cycle
    }
}

/// A run after one more profile: skipped, or marked as refreshing, refreshed and reported.
pub open spec fn cycle_next(
    source: RefreshSource,
    force: bool,
    now_epoch_secs: u64,
    cycle: CycleView,
    configured: ConfiguredProfileView,
    read: Option<Result<AuthSecret, StoreError>>,
) -> CycleView {
    let id = configured.profile.id;
    let (starts, reason) = cycle_decision(cycle, configured, now_epoch_secs, force);
    if starts {
        let marked = refreshing(lookup(cycle.state, id).unwrap());
        let after = attempted(
            marked,
            now_epoch_secs,
            attempt(configured, source.secret_material.deep_view(), read, source.replay),
        );
        let state = put(put(cycle.state, id, marked), id, after);
        reported(CycleView { state, ..cycle }, id, refreshed_line(after, reason))
    } else {
        reported(cycle, id, skipped_line(configured, reason))
    }
}

/// How far a run comes.
#[verifier::ext_equal]
pub enum ProgressView {
    /// The secret of this profile has to be read first.
    Read(int),
    Failed(RefreshCommandErrorView),
    Done(CycleView),
}

/// How far a run comes from profile `i` on, with the secrets that have been read.
pub open spec fn cycle_from(
    source: RefreshSource,
    force: bool,
    now_epoch_secs: u64,
    reads: Seq<Option<Result<AuthSecret, StoreError>>>,
    cycle: CycleView,
    i: nat,
) -> ProgressView
    decreases source.config@.profiles.len() - i,
{
    let profiles = source.config@.profiles;
    if i >= profiles.len() {
        ProgressView::Done(cycle)
    } else {
        let configured = profiles[i as int];
        let starts = cycle_decision(cycle, configured, now_epoch_secs, force).0;
        if starts && source.paths is Err {
            ProgressView::Failed(RefreshCommandErrorView::Store(source.paths->Err_0@))
        } else if starts && needs_read(configured, source.secret_material.deep_view()) && read_at(
            reads,
            i as int,
        ) is None {
            ProgressView::Read(i as int)
        } else {
            cycle_from(
                source,
                force,
                now_epoch_secs,
                reads,
                cycle_next(
                    source,
                    force,
                    now_epoch_secs,
                    cycle,
                    configured,
                    read_at(reads, i as int),
                ),
                i + 1,
            )
        }
    }
}

/// How far a run has come.
#[derive(Debug)]
pub enum RefreshProgress {
    /// The secret of the profile at this position has to be read, and the run made again with it.
    Read(usize),
    /// All profiles are done.
    Done(RefreshRun),
}

/// Whether the state of a run knows every configured profile.
pub open spec fn knows_all(
    state: Seq<(Seq<char>, RefreshedProfileView)>,
    profiles: Seq<ConfiguredProfileView>,
) -> bool {
    forall|i: int|
        0 <= i < profiles.len() ==> lookup(state, (#[trigger] profiles[i]).profile.id) is Some
}

/// Whether one of the configured profiles has this id.
pub open spec fn is_configured(profiles: Seq<ConfiguredProfileView>, id: Seq<char>) -> bool {
    exists|i: int| 0 <= i < profiles.len() && (#[trigger] profiles[i]).profile.id == id
}

/// Whether nothing is kept but under the ids of configured profiles.
pub open spec fn knows_only<T>(
    entries: Seq<(Seq<char>, T)>,
    profiles: Seq<ConfiguredProfileView>,
) -> bool {
    forall|id: Seq<char>| #[trigger] lookup(entries, id) is Some ==> is_configured(profiles, id)
}

/// Whether no profile is still marked as refreshing.
pub open spec fn settled(state: Seq<(Seq<char>, RefreshedProfileView)>) -> bool {
    forall|id: Seq<char>| #[trigger]
        lookup(state, id) matches Some(known) ==> known.status != RefreshStatus::Refreshing
}

/// Putting a profile forgets no other one.
proof fn lemma_put_knows_all(
    state: Seq<(Seq<char>, RefreshedProfileView)>,
    profiles: Seq<ConfiguredProfileView>,
    id: Seq<char>,
    known: RefreshedProfileView,
)
    requires
        ordered(state),
        knows_all(state, profiles),
    ensures
        ordered(put(state, id, known)),
        knows_all(put(state, id, known), profiles),
{
    string_map::lemma_put_ordered(state, id, known);
    assert forall|i: int| 0 <= i < profiles.len() implies lookup(
        put(state, id, known),
        (#[trigger] profiles[i]).profile.id,
    ) is Some by {
        string_map::lemma_lookup_put(state, id, known, profiles[i].profile.id);
    }
}

/// Before any refresh exactly the configured profiles are known, as stale and without a snapshot.
pub proof fn lemma_initial_state_knows_all(profiles: Seq<ConfiguredProfileView>)
    ensures
        ordered(initial_state(profiles)),
        knows_all(initial_state(profiles), profiles),
        knows_only(initial_state(profiles), profiles),
        forall|id: Seq<char>| #[trigger]
            lookup(initial_state(profiles), id) matches Some(known) ==> known.status
                == RefreshStatus::Stale && known.snapshot is None && known.last_updated_at is None,
    decreases profiles.len(),
{
    if profiles.len() > 0 {
        let rest = profiles.drop_last();
        let last = profiles.last().profile;
        let before = initial_state(rest);
        let known = crate::refresh::unrefreshed(last);
        lemma_initial_state_knows_all(rest);
        lemma_put_knows_all(before, rest, last.id, known);
        assert forall|i: int| 0 <= i < profiles.len() implies lookup(
            initial_state(profiles),
            (#[trigger] profiles[i]).profile.id,
        ) is Some by {
            string_map::lemma_lookup_put(before, last.id, known, profiles[i].profile.id);
            if i < rest.len() {
                assert(rest[i] == profiles[i]);
            }
        }
        assert forall|id: Seq<char>| #[trigger]
            lookup(initial_state(profiles), id) matches Some(known) ==> known.status
                == RefreshStatus::Stale && known.snapshot is None && known.last_updated_at is None by {
            string_map::lemma_lookup_put(before, last.id, known, id);
        }
        assert forall|id: Seq<char>| #[trigger]
            lookup(initial_state(profiles), id) is Some implies is_configured(profiles, id) by {
            string_map::lemma_lookup_put(before, last.id, known, id);
            if id == last.id {
                assert(profiles[profiles.len() - 1].profile.id == id);
            } else {
                let i = choose|i: int|
                    0 <= i < rest.len() && (#[trigger] rest[i]).profile.id == id;
                assert(profiles[i].profile.id == id);
            }
        }
    }
}

/// Runs the refresh over all profiles of the source, with the secrets that have been read so far;
/// `reads` holds the outcome for each profile. The run either ends, or says which profile's
/// secret it needs next: one that it starts to refresh, and whose secret only a store has.
pub fn run_refresh_cycle(
    command: &RefreshCommand,
    source: &RefreshSource,
    reads: &Vec<Option<Result<AuthSecret, StoreError>>>,
) -> (r: Result<RefreshProgress, RefreshCommandError>)
    ensures
        ({
            let now = run_time(command@.now_epoch_secs, source.current_epoch_secs);
            match (
                r,
                cycle_from(*source, command@.force, now, reads@, cycle_start(*source), 0),
            ) {
                (Ok(RefreshProgress::Read(i)), ProgressView::Read(wanted)) => i == wanted,
                (Ok(RefreshProgress::Done(run)), ProgressView::Done(cycle)) => {
                    &&& run.state@ == cycle.state
                    &&& run.output.lines.deep_view() == cycle.lines
                    &&& run.profile_lines@ == cycle.profile_lines
                    &&& run.now_epoch_secs == now
                },
                (Err(error), ProgressView::Failed(wanted)) => error@ == wanted,
                _ => false,
            }
        }),
{
    let now_epoch_secs: u64 = match command.now_epoch_secs {
        Some(now) => now,
        None => source.current_epoch_secs,
    };
    let ghost wanted = cycle_from(
        *source,
        command@.force,
        now_epoch_secs,
        reads@,
        cycle_start(*source),
        0,
    );
    let ghost profiles = source.config@.profiles;
    let mut state = RefreshState::new(source.config.profiles.as_slice());
    assert(source.config.profiles@.map_values(|c: ConfiguredProfile| c@) =~= profiles);
    proof {
        lemma_initial_state_knows_all(profiles);
    }
    let mut profile_lines: StringMap<String> = StringMap::new();
    let config_path = source.config_path.to_text();
    let count = text::from_u64(source.config.profiles.len() as u64);
    let mut lines: Vec<String> = vec![
        text::concat("source: ", config_path.as_str()),
        text::concat("profiles: ", count.as_str()),
    ];
    let ghost mut cycle = cycle_start(*source);
    assert(lines.deep_view() =~= cycle.lines);
    let mut i: usize = 0;
    while i < source.config.profiles.len()
        invariant
            i <= source.config.profiles.len(),
            profiles == source.config@.profiles,
            state@ == cycle.state,
            lines.deep_view() == cycle.lines,
            profile_lines@ == cycle.profile_lines,
            ordered(cycle.state),
            knows_all(cycle.state, profiles),
            wanted == cycle_from(
                *source,
                command@.force,
                now_epoch_secs,
                reads@,
                cycle_start(*source),
                0,
            ),
            now_epoch_secs == run_time(command@.now_epoch_secs, source.current_epoch_secs),
            wanted == cycle_from(
                *source,
                command@.force,
                now_epoch_secs,
                reads@,
                cycle,
                i as nat,
            ),
        decreases source.config.profiles.len() - i,
    {
        let configured = &source.config.profiles[i];
        let ghost id = configured@.profile.id;
        assert(profiles[i as int] == configured@);
        let request = RefreshRequest {
            profile_id: configured.profile.id.clone(),
            now_epoch_secs,
            force: command.force,
        };
        let decision = state.should_start_refresh(&request, false);
        let ghost before = cycle;
        let line = if !decision.should_start {
            render_skipped_profile_line(configured, &decision)
        } else {
            if let Err(error) = &source.paths {
                return Err(RefreshCommandError::Store(error.clone()));
            }
            let unread: Option<Result<AuthSecret, StoreError>> = None;
            let read = if i < reads.len() {
                &reads[i]
            } else {
                &unread
            };
            let stored = match &configured.secret_ref {
                SecretRef::Managed { .. } => false,
                _ => true,
            };
            if stored && source.secret_material.is_none() && read.is_none() {
                return Ok(RefreshProgress::Read(i));
            }
            let ghost known = lookup(state@, id).unwrap();
            if let Err(error) = state.mark_refreshing(configured.profile.id.as_str()) {
                assert(false);
                return Err(RefreshCommandError::App(error));
            }
            proof {
                string_map::lemma_lookup_put(before.state, id, refreshing(known), id);
                lemma_put_knows_all(before.state, profiles, id, refreshing(known));
            }
            let ghost marked = state@;
            if let Err(error) = execute_refresh_profile(
                &mut state,
                configured,
                source.secret_material.as_ref(),
                read,
                now_epoch_secs,
                &source.replay,
            ) {
                assert(false);
                return Err(RefreshCommandError::App(error));
            }
            proof {
                let after = attempted(
                    refreshing(known),
                    now_epoch_secs,
                    attempt(
                        configured@,
                        source.secret_material.deep_view(),
                        *read,
                        source.replay,
                    ),
                );
                string_map::lemma_lookup_put(marked, id, after, id);
                lemma_put_knows_all(marked, profiles, id, after);
            }
            match state.profiles.get(configured.profile.id.as_str()) {
                Some(refreshed) => render_refreshed_profile_line(
                    refreshed,
                    decision.reason.as_str(),
                ),
                None => {
                    assert(false);
                    return Err(
                        RefreshCommandError::App(
                            AppError::UnknownProfile(configured.profile.id.clone()),
                        ),
                    );
                },
            }
        };
        proof {
            cycle = cycle_next(
                *source,
                command@.force,
                now_epoch_secs,
                before,
                configured@,
                read_at(reads@, i as int),
            );
        }
        let ghost done = lines.deep_view();
        profile_lines.insert(configured.profile.id.clone(), line.clone());
        lines.push(line);
        assert(lines.deep_view() =~= done.push(line@));
        i = i + 1;
    }
    Ok(
        RefreshProgress::Done(
            RefreshRun {
                state,
                output: RefreshCommandOutput { lines },
                profile_lines,
                now_epoch_secs,
            },
        ),
    )
}

/// The report of a run.
pub fn run_refresh_command(run: Result<RefreshRun, RefreshCommandError>) -> (r: Result<
    RefreshCommandOutput,
    RefreshCommandError,
>)
    ensures
        match (r, run) {
            (Ok(output), Ok(run)) => output.lines.deep_view() == run.output.lines.deep_view(),
            (Err(error), Err(given)) => error@ == given@,
            _ => false,
        },
{
    match run {
        Ok(run) => Ok(run.output),
        Err(error) => Err(error),
    }
}

/// The refresh command of a command line, if it names one.
pub fn dispatch_command(command: &Command) -> (r: Option<&RefreshCommand>)
    ensures
        r.deep_view() == (match command@ {
            CommandView::Refresh(refresh) => Some(refresh),
            _ => None,
        }),
{
    match command {
        Command::Refresh(refresh) => Some(refresh),
        _ => None,
    }
}

/// A provider other than the Codex protocol never brings a snapshot: what is known of such a
/// profile's quota, and the family it is reported under, stay as they were.
pub proof fn lemma_only_codex_brings_quotas(
    configured: ConfiguredProfileView,
    material: Option<SecretMaterialView>,
    read: Option<Result<AuthSecret, StoreError>>,
    replay: ReplayedResponses,
    known: RefreshedProfileView,
    now_epoch_secs: u64,
)
    requires
        !(configured.profile.provider is CodexProtocol),
    ensures
        ({
            let after = attempted(
                known,
                now_epoch_secs,
                attempt(configured, material, read, replay),
            );
            &&& after.snapshot == known.snapshot
            &&& after.usage_family == known.usage_family
            &&& after.status != RefreshStatus::Healthy
        }),
{
}

/// A profile whose secret is blank, missing or unreadable is never refreshed as healthy: it asks
/// for a login.
pub proof fn lemma_no_refresh_without_secret(
    configured: ConfiguredProfileView,
    material: Option<SecretMaterialView>,
    read: Option<Result<AuthSecret, StoreError>>,
    replay: ReplayedResponses,
    known: RefreshedProfileView,
    now_epoch_secs: u64,
)
    requires
        secret_error(configured, material, read) is Some,
    ensures
        attempted(known, now_epoch_secs, attempt(configured, material, read, replay)).status
            == RefreshStatus::AuthRequired,
        attempted(known, now_epoch_secs, attempt(configured, material, read, replay)).snapshot
            == known.snapshot,
{
}

/// A run that has come to profile `i`: exactly the configured profiles are known, none of them as
/// refreshing, and those before `i` have been reported, and no others.
spec fn in_good_order(cycle: CycleView, profiles: Seq<ConfiguredProfileView>, i: nat) -> bool {
    &&& ordered(cycle.state)
    &&& knows_all(cycle.state, profiles)
    &&& knows_only(cycle.state, profiles)
    &&& settled(cycle.state)
    &&& ordered(cycle.profile_lines)
    &&& knows_only(cycle.profile_lines, profiles)
    &&& forall|j: int|
        0 <= j < i && j < profiles.len() ==> lookup(
            cycle.profile_lines,
            (#[trigger] profiles[j]).profile.id,
        ) is Some
}

/// One more profile keeps a run in good order.
proof fn lemma_next_in_good_order(
    source: RefreshSource,
    force: bool,
    now_epoch_secs: u64,
    cycle: CycleView,
    i: nat,
    read: Option<Result<AuthSecret, StoreError>>,
)
    requires
        i < source.config@.profiles.len(),
        in_good_order(cycle, source.config@.profiles, i),
    ensures
        in_good_order(
            cycle_next(
                source,
                force,
                now_epoch_secs,
                cycle,
                source.config@.profiles[i as int],
                read,
            ),
            source.config@.profiles,
            i + 1,
        ),
{
    let profiles = source.config@.profiles;
    let configured = profiles[i as int];
    let id = configured.profile.id;
    let next = cycle_next(source, force, now_epoch_secs, cycle, configured, read);
    let marked = refreshing(lookup(cycle.state, id).unwrap());
    let after = attempted(
        marked,
        now_epoch_secs,
        attempt(configured, source.secret_material.deep_view(), read, source.replay),
    );
    let during = put(cycle.state, id, marked);
    assert(is_configured(profiles, id));
    lemma_put_knows_all(cycle.state, profiles, id, marked);
    lemma_put_knows_all(during, profiles, id, after);
    assert forall|other: Seq<char>| #[trigger]
        lookup(next.state, other) matches Some(known) ==> is_configured(profiles, other)
            && known.status != RefreshStatus::Refreshing by {
        string_map::lemma_lookup_put(cycle.state, id, marked, other);
        string_map::lemma_lookup_put(during, id, after, other);
        assert(lookup(cycle.state, other) is Some ==> is_configured(profiles, other));
    }
    let line = next.lines.last();
    assert(next.profile_lines == put(cycle.profile_lines, id, line));
    string_map::lemma_put_ordered(cycle.profile_lines, id, line);
    assert forall|other: Seq<char>| #[trigger]
        lookup(next.profile_lines, other) is Some implies is_configured(profiles, other) by {
        string_map::lemma_lookup_put(cycle.profile_lines, id, line, other);
        assert(lookup(cycle.profile_lines, other) is Some ==> is_configured(profiles, other));
    }
    assert forall|j: int| 0 <= j < i + 1 && j < profiles.len() implies lookup(
        next.profile_lines,
        (#[trigger] profiles[j]).profile.id,
    ) is Some by {
        string_map::lemma_lookup_put(cycle.profile_lines, id, line, profiles[j].profile.id);
    }
}

/// A run that ends from profile `i` on has reported every profile.
proof fn lemma_reports_from(
    source: RefreshSource,
    force: bool,
    now_epoch_secs: u64,
    reads: Seq<Option<Result<AuthSecret, StoreError>>>,
    cycle: CycleView,
    i: nat,
)
    requires
        in_good_order(cycle, source.config@.profiles, i),
        i <= source.config@.profiles.len(),
    ensures
        cycle_from(source, force, now_epoch_secs, reads, cycle, i) matches ProgressView::Done(
            end,
        ) ==> {
            &&& in_good_order(end, source.config@.profiles, source.config@.profiles.len())
            &&& end.lines.len() == cycle.lines.len() + source.config@.profiles.len() - i
            &&& cycle.lines.is_prefix_of(end.lines)
        },
    decreases source.config@.profiles.len() - i,
{
    let profiles = source.config@.profiles;
    if i < profiles.len() {
        let read = read_at(reads, i as int);
        let next = cycle_next(source, force, now_epoch_secs, cycle, profiles[i as int], read);
        lemma_next_in_good_order(source, force, now_epoch_secs, cycle, i, read);
        lemma_reports_from(source, force, now_epoch_secs, reads, next, i + 1);
        if let ProgressView::Done(end) = cycle_from(
            source,
            force,
            now_epoch_secs,
            reads,
            next,
            i + 1,
        ) {
            assert(cycle.lines =~= end.lines.take(cycle.lines.len() as int)) by {
                assert(next.lines == end.lines.take(next.lines.len() as int));
                assert(cycle.lines =~= next.lines.take(cycle.lines.len() as int));
            }
        }
    } else {
        assert(cycle.lines =~= cycle.lines.take(cycle.lines.len() as int));
    }
}

/// A run that ends knows exactly the configured profiles, and none of them is left as refreshing.
/// It has one line for each behind its two head lines, and a line under the id of each of them and
/// under no other.
pub proof fn lemma_run_reports_every_profile(
    source: RefreshSource,
    force: bool,
    now_epoch_secs: u64,
    reads: Seq<Option<Result<AuthSecret, StoreError>>>,
)
    ensures
        cycle_from(
            source,
            force,
            now_epoch_secs,
            reads,
            cycle_start(source),
            0,
        ) matches ProgressView::Done(end) ==> {
            &&& ordered(end.state)
            &&& forall|id: Seq<char>|
                is_configured(source.config@.profiles, id) <==> #[trigger] lookup(
                    end.state,
                    id,
                ) is Some
            &&& settled(end.state)
            &&& end.lines.len() == 2 + source.config@.profiles.len()
            &&& cycle_start(source).lines.is_prefix_of(end.lines)
            &&& ordered(end.profile_lines)
            &&& forall|id: Seq<char>|
                is_configured(source.config@.profiles, id) <==> #[trigger] lookup(
                    end.profile_lines,
                    id,
                ) is Some
        },
{
    let profiles = source.config@.profiles;
    lemma_initial_state_knows_all(profiles);
    assert(settled(cycle_start(source).state));
    assert(knows_only(cycle_start(source).profile_lines, profiles));
    lemma_reports_from(source, force, now_epoch_secs, reads, cycle_start(source), 0);
    if let ProgressView::Done(end) = cycle_from(
        source,
        force,
        now_epoch_secs,
        reads,
        cycle_start(source),
        0,
    ) {
        assert forall|id: Seq<char>| is_configured(profiles, id) implies #[trigger] lookup(
            end.state,
            id,
        ) is Some && lookup(end.profile_lines, id) is Some by {
            let j = choose|j: int|
                0 <= j < profiles.len() && (#[trigger] profiles[j]).profile.id == id;
            assert(lookup(end.profile_lines, profiles[j].profile.id) is Some);
        }
        assert forall|id: Seq<char>| is_configured(profiles, id) implies #[trigger] lookup(
            end.profile_lines,
            id,
        ) is Some by {
            assert(lookup(end.state, id) is Some);
        }
    }
}

/// Each status has its own word, and each word stands for one status.
pub proof fn lemma_status_words(status: RefreshStatus)
    ensures
        status_text(status) == "healthy"@ <==> status is Healthy,
        status_text(status) == "stale"@ <==> status is Stale,
        status_text(status) == "auth_required"@ <==> status is AuthRequired,
        status_text(status) == "rate_limited"@ <==> status is RateLimited,
        status_text(status) == "error"@ <==> status is Error,
        status_text(status) == "refreshing"@ <==> status is Refreshing,
{
    reveal_strlit("healthy");
    reveal_strlit("stale");
    reveal_strlit("auth_required");
    reveal_strlit("rate_limited");
    reveal_strlit("error");
    reveal_strlit("refreshing");
    assert("healthy"@.len() == 7 && "auth_required"@.len() == 13 && "rate_limited"@.len() == 12);
    assert("refreshing"@.len() == 10);
    assert("stale"@[0] == 's' && "error"@[0] == 'e');
}

/// Each known provider has its own word, and every other provider has one that stands for neither.
pub proof fn lemma_provider_words(provider: ProviderKindView)
    ensures
        provider_text(provider) == "codex_protocol"@ <==> provider is CodexProtocol,
        provider_text(provider) == "openai_api_usage"@ <==> provider is OpenAiApiUsage,
        provider_text(provider) == "other"@ <==> provider is Other,
{
    reveal_strlit("codex_protocol");
    reveal_strlit("openai_api_usage");
    reveal_strlit("other");
    assert("codex_protocol"@.len() == 14 && "openai_api_usage"@.len() == 16);
    assert("other"@.len() == 5);
}

/// A secret is refused exactly where its payload is blank, and always as a matter of authentication.
pub proof fn lemma_blank_secrets(secret: AuthSecretView)
    ensures
        ({
            let payload = match secret {
                AuthSecretView::BrowserSession { session_payload } => session_payload,
                AuthSecretView::HeadlessSession { session_payload } => session_payload,
                AuthSecretView::ApiKey { api_key } => api_key,
            };
            match blank_error(secret) {
                None => trimmed(payload).len() > 0,
                Some(CodexProviderErrorView::Auth(message)) => trimmed(payload).len() == 0
                    && message == (if secret is ApiKey {
                    "empty api key"@
                } else {
                    "empty browser session payload"@
                }),
                Some(_) => false,
            }
        }),
{
}

/// Secret material beside the configuration decides alone: a profile without an entry there is
/// refused, one with an entry by that entry only, whatever its store holds.
pub proof fn lemma_material_decides(
    configured: ConfiguredProfileView,
    material: SecretMaterialView,
    read: Option<Result<AuthSecret, StoreError>>,
    other_read: Option<Result<AuthSecret, StoreError>>,
)
    ensures
        secret_error(configured, Some(material), read) == secret_error(
            configured,
            Some(material),
            other_read,
        ),
        match entry_of(material.entries, configured.profile.id) {
            Some(secret) => secret_error(configured, Some(material), read) == blank_error(secret),
            None => secret_error(configured, Some(material), read) == Some(
                CodexProviderErrorView::Auth("missing secret entry in sidecar material"@),
            ),
        },
{
}

/// Without secret material a profile goes by what reading its store gave: a failed reading is told by
/// its text, a secret that was read by whether it is blank; one that something else manages is
/// refused by name. Every refusal is a matter of authentication.
pub proof fn lemma_store_decides(
    configured: ConfiguredProfileView,
    read: Option<Result<AuthSecret, StoreError>>,
)
    ensures
        match (configured.secret_ref, secret_error(configured, None, read)) {
            (SecretRefView::Managed { id }, Some(CodexProviderErrorView::Auth(message))) => message
                == "managed secret ref `"@ + id + "` is unavailable without sidecar material"@,
            (SecretRefView::Managed { .. }, _) => false,
            (_, outcome) => match read {
                Some(Err(error)) => outcome == Some(CodexProviderErrorView::Auth(error@.text())),
                Some(Ok(secret)) => outcome == blank_error(secret@),
                None => true,
            },
        },
{
}

/// A profile is refreshed by the Codex protocol or not at all: an API key by the response for API
/// keys, every other account by that for ChatGPT accounts, both with the same limits.
pub proof fn lemma_which_responses_count(
    configured: ConfiguredProfileView,
    material: Option<SecretMaterialView>,
    read: Option<Result<AuthSecret, StoreError>>,
    replay: ReplayedResponses,
)
    requires
        secret_error(configured, material, read) is None,
    ensures
        !(configured.profile.provider is CodexProtocol) ==> attempt(
            configured,
            material,
            read,
            replay,
        ) == Err::<CodexProviderSnapshotView, CodexProviderErrorView>(
            CodexProviderErrorView::InvalidPayload(
                "refresh provider `"@ + provider_text(configured.profile.provider)
                    + "` is not supported yet"@,
            ),
        ),
        configured.profile.provider is CodexProtocol && configured.profile.account_kind is ApiKey
            ==> attempt(configured, material, read, replay) == adapted(
            replay.api_key_account,
            replay.rate_limits,
        ),
        configured.profile.provider is CodexProtocol && !(configured.profile.account_kind is ApiKey)
            ==> attempt(configured, material, read, replay) == adapted(
            replay.chatgpt_account,
            replay.rate_limits,
        ),
{
}

/// A secret that is refused ends the refresh of its profile, whatever the responses hold.
pub proof fn lemma_refused_secret_ends_the_refresh(
    configured: ConfiguredProfileView,
    material: Option<SecretMaterialView>,
    read: Option<Result<AuthSecret, StoreError>>,
    replay: ReplayedResponses,
)
    ensures
        secret_error(configured, material, read) matches Some(error) ==> attempt(
            configured,
            material,
            read,
            replay,
        ) == Err::<CodexProviderSnapshotView, CodexProviderErrorView>(error),
{
}

/// What a run comes to for one profile that no other shares its id with: what is known of it after an
/// attempt, or, where it may not be forced, what was known before.
spec fn result_of(
    source: RefreshSource,
    force: bool,
    now_epoch_secs: u64,
    configured: ConfiguredProfileView,
    read: Option<Result<AuthSecret, StoreError>>,
) -> RefreshedProfileView {
    let known = unrefreshed(configured.profile);
    if force && !configured.profile.refresh_policy.allow_manual_refresh {
        known
    } else {
        match attempt(configured, source.secret_material.deep_view(), read, source.replay) {
            Ok(snapshot) => succeeded(known, now_epoch_secs, snapshot),
            Err(error) => failed(known, error),
        }
    }
}

/// The line that a run reports such a profile by.
spec fn line_of(
    source: RefreshSource,
    force: bool,
    now_epoch_secs: u64,
    configured: ConfiguredProfileView,
    read: Option<Result<AuthSecret, StoreError>>,
) -> Seq<char> {
    if force && !configured.profile.refresh_policy.allow_manual_refresh {
        skipped_line(configured, "manual refresh disabled by policy"@)
    } else {
        refreshed_line(
            result_of(source, force, now_epoch_secs, configured, read),
            if force {
                "manual refresh requested"@
            } else {
                "refresh interval elapsed"@
            },
        )
    }
}

/// A run that has come to profile `i` of profiles with distinct ids: those before it have their
/// results and lines, those from it on are as they were.
spec fn is_underway(
    source: RefreshSource,
    force: bool,
    now_epoch_secs: u64,
    reads: Seq<Option<Result<AuthSecret, StoreError>>>,
    cycle: CycleView,
    i: nat,
) -> bool {
    let profiles = source.config@.profiles;
    &&& ordered(cycle.state)
    &&& ordered(cycle.profile_lines)
    &&& cycle.lines.len() == 2 + i
    &&& cycle.lines[0] == "source: "@ + shown(source.config_path@)
    &&& cycle.lines[1] == "profiles: "@ + decimal(profiles.len())
    &&& forall|j: int|
        0 <= j < profiles.len() ==> lookup(cycle.state, (#[trigger] profiles[j]).profile.id) == Some(
            if j < i {
                result_of(source, force, now_epoch_secs, profiles[j], read_at(reads, j))
            } else {
                unrefreshed(profiles[j].profile)
            },
        )
    &&& forall|j: int|
        0 <= j < i ==> {
            &&& cycle.lines[2 + j] == line_of(
                source,
                force,
                now_epoch_secs,
                #[trigger] profiles[j],
                read_at(reads, j),
            )
            &&& lookup(cycle.profile_lines, profiles[j].profile.id) == Some(cycle.lines[2 + j])
        }
}

proof fn lemma_underway_next(
    source: RefreshSource,
    force: bool,
    now_epoch_secs: u64,
    reads: Seq<Option<Result<AuthSecret, StoreError>>>,
    cycle: CycleView,
    i: nat,
)
    requires
        i < source.config@.profiles.len(),
        ids_distinct(source.config@.profiles),
        is_underway(source, force, now_epoch_secs, reads, cycle, i),
    ensures
        is_underway(
            source,
            force,
            now_epoch_secs,
            reads,
            cycle_next(
                source,
                force,
                now_epoch_secs,
                cycle,
                source.config@.profiles[i as int],
                read_at(reads, i as int),
            ),
            i + 1,
        ),
{
    let profiles = source.config@.profiles;
    let configured = profiles[i as int];
    let id = configured.profile.id;
    let read = read_at(reads, i as int);
    let next = cycle_next(source, force, now_epoch_secs, cycle, configured, read);
    let known = unrefreshed(configured.profile);
    assert(lookup(cycle.state, id) == Some(known));
    let marked = refreshing(known);
    let after = attempted(
        marked,
        now_epoch_secs,
        attempt(configured, source.secret_material.deep_view(), read, source.replay),
    );
    let during = put(cycle.state, id, marked);
    string_map::lemma_put_ordered(cycle.state, id, marked);
    string_map::lemma_put_ordered(during, id, after);
    let line = line_of(source, force, now_epoch_secs, configured, read);
    let starts = cycle_decision(cycle, configured, now_epoch_secs, force).0;
    assert(starts == !(force && !configured.profile.refresh_policy.allow_manual_refresh));
    assert(starts ==> after == result_of(source, force, now_epoch_secs, configured, read));
    assert(next.lines =~= cycle.lines.push(line));
    assert(next.profile_lines == put(cycle.profile_lines, id, line));
    string_map::lemma_put_ordered(cycle.profile_lines, id, line);
    assert forall|j: int| 0 <= j < profiles.len() implies lookup(
        next.state,
        (#[trigger] profiles[j]).profile.id,
    ) == Some(
        if j < i + 1 {
            result_of(source, force, now_epoch_secs, profiles[j], read_at(reads, j))
        } else {
            unrefreshed(profiles[j].profile)
        },
    ) by {
        string_map::lemma_lookup_put(cycle.state, id, marked, profiles[j].profile.id);
        string_map::lemma_lookup_put(during, id, after, profiles[j].profile.id);
        if j != i {
            assert(profiles[j].profile.id != profiles[i as int].profile.id);
        }
    }
    assert forall|j: int| 0 <= j < i + 1 implies {
        &&& next.lines[2 + j] == line_of(
            source,
            force,
            now_epoch_secs,
            #[trigger] profiles[j],
            read_at(reads, j),
        )
        &&& lookup(next.profile_lines, profiles[j].profile.id) == Some(next.lines[2 + j])
    } by {
        string_map::lemma_lookup_put(cycle.profile_lines, id, line, profiles[j].profile.id);
        if j != i {
            assert(profiles[j].profile.id != profiles[i as int].profile.id);
            assert(next.lines[2 + j] == cycle.lines[2 + j]);
        }
    }
}

proof fn lemma_underway_to_the_end(
    source: RefreshSource,
    force: bool,
    now_epoch_secs: u64,
    reads: Seq<Option<Result<AuthSecret, StoreError>>>,
    cycle: CycleView,
    i: nat,
)
    requires
        i <= source.config@.profiles.len(),
        ids_distinct(source.config@.profiles),
        is_underway(source, force, now_epoch_secs, reads, cycle, i),
    ensures
        cycle_from(source, force, now_epoch_secs, reads, cycle, i) matches ProgressView::Done(
            end,
        ) ==> is_underway(
            source,
            force,
            now_epoch_secs,
            reads,
            end,
            source.config@.profiles.len(),
        ),
    decreases source.config@.profiles.len() - i,
{
    let profiles = source.config@.profiles;
    if i < profiles.len() {
        lemma_underway_next(source, force, now_epoch_secs, reads, cycle, i);
        lemma_underway_to_the_end(
            source,
            force,
            now_epoch_secs,
            reads,
            cycle_next(
                source,
                force,
                now_epoch_secs,
                cycle,
                profiles[i as int],
                read_at(reads, i as int),
            ),
            i + 1,
        );
    }
}

/// What a run that ends comes to for each of its profiles, where no two share an id: a profile that
/// may not be forced, in a forced run, is skipped and left as it was; every other one is attempted
/// once, with its own secret, and recorded as a success or as a failure. Its line stands at its own
/// place behind the two head lines, and under its own id.
pub proof fn lemma_run_of_each_profile(
    source: RefreshSource,
    force: bool,
    now_epoch_secs: u64,
    reads: Seq<Option<Result<AuthSecret, StoreError>>>,
    i: int,
)
    requires
        ids_distinct(source.config@.profiles),
        0 <= i < source.config@.profiles.len(),
    ensures
        cycle_from(
            source,
            force,
            now_epoch_secs,
            reads,
            cycle_start(source),
            0,
        ) matches ProgressView::Done(end) ==> {
            let configured = source.config@.profiles[i];
            let id = configured.profile.id;
            let known = unrefreshed(configured.profile);
            let outcome = attempt(
                configured,
                source.secret_material.deep_view(),
                read_at(reads, i),
                source.replay,
            );
            let skipped = force && !configured.profile.refresh_policy.allow_manual_refresh;
            let reason = if force {
                "manual refresh requested"@
            } else {
                "refresh interval elapsed"@
            };
            &&& end.lines[0] == "source: "@ + shown(source.config_path@)
            &&& end.lines[1] == "profiles: "@ + decimal(source.config@.profiles.len())
            &&& lookup(end.profile_lines, id) == Some(end.lines[2 + i])
            &&& skipped ==> lookup(end.state, id) == Some(known) && end.lines[2 + i]
                == "skipped: "@ + id + " | "@ + configured.profile.display_name + " | "@
                + "manual refresh disabled by policy"@
            &&& !skipped ==> match outcome {
                Ok(snapshot) => lookup(end.state, id) == Some(
                    succeeded(known, now_epoch_secs, snapshot),
                ) && end.lines[2 + i] == refreshed_line(
                    succeeded(known, now_epoch_secs, snapshot),
                    reason,
                ),
                Err(error) => lookup(end.state, id) == Some(failed(known, error)) && end.lines[2
                    + i] == refreshed_line(failed(known, error), reason),
            }
        },
{
    let profiles = source.config@.profiles;
    lemma_initial_state_knows_all(profiles);
    assert forall|j: int| 0 <= j < profiles.len() implies lookup(
        initial_state(profiles),
        (#[trigger] profiles[j]).profile.id,
    ) == Some(unrefreshed(profiles[j].profile)) by {
        assert forall|k: int| j < k < profiles.len() implies (#[trigger] profiles[k]).profile.id
            != profiles[j].profile.id by {
            assert(profiles[j].profile.id != profiles[k].profile.id);
        }
        crate::refresh::lemma_initial_profiles(profiles, j);
    }
    lemma_underway_to_the_end(source, force, now_epoch_secs, reads, cycle_start(source), 0);
    if let ProgressView::Done(end) = cycle_from(
        source,
        force,
        now_epoch_secs,
        reads,
        cycle_start(source),
        0,
    ) {
        assert(end.lines[2 + i] == line_of(
            source,
            force,
            now_epoch_secs,
            profiles[i],
            read_at(reads, i),
        ));
    }
}

/// The line on a profile that was attempted: its status, id and name, why it was attempted, its
/// quotas where it has any, and its error where it has one.
pub proof fn lemma_refreshed_lines(known: RefreshedProfileView, reason: Seq<char>)
    ensures
        ({
            let head = status_text(known.status) + ": "@ + known.profile.id + " | "@
                + known.profile.display_name + " | decision="@ + reason + " | "@;
            match (known.snapshot, known.last_error) {
                (Some(windows), Some(error)) => refreshed_line(known, reason) == head
                    + snapshot_summary(windows) + (" | error="@ + error),
                (Some(windows), None) => refreshed_line(known, reason) == head + snapshot_summary(
                    windows,
                ) + ""@,
                (None, Some(error)) => refreshed_line(known, reason) == head
                    + "no quota snapshot"@ + (" | error="@ + error),
                (None, None) => refreshed_line(known, reason) == head + "no quota snapshot"@ + ""@,
            }
        }),
{
}

/// The quotas in a line: the first window of five hours, then the first weekly one, each with its
/// label, percentage and reset time; one that is missing is said to be.
pub proof fn lemma_summaries(windows: Seq<QuotaWindowView>)
    ensures
        ({
            let five_hour = match first_of_kind(windows, QuotaWindowKind::FiveHour) {
                Some(w) => w.label + " "@ + w.used_percent.text() + "% -> "@ + w.resets_at,
                None => "no 5h window"@,
            };
            let weekly = match first_of_kind(windows, QuotaWindowKind::Weekly) {
                Some(w) => w.label + " "@ + w.used_percent.text() + "% -> "@ + w.resets_at,
                None => "no weekly window"@,
            };
            snapshot_summary(windows) == five_hour + " | "@ + weekly
        }),
{
}

proof fn lemma_progress_from(
    source: RefreshSource,
    force: bool,
    now_epoch_secs: u64,
    reads: Seq<Option<Result<AuthSecret, StoreError>>>,
    cycle: CycleView,
    i: nat,
)
    ensures
        match cycle_from(source, force, now_epoch_secs, reads, cycle, i) {
            ProgressView::Read(k) => {
                &&& i <= k < source.config@.profiles.len()
                &&& source.paths is Ok
                &&& source.secret_material is None
                &&& !(source.config@.profiles[k].secret_ref is Managed)
                &&& read_at(reads, k) is None
            },
            ProgressView::Failed(error) => source.paths matches Err(e) && error
                == RefreshCommandErrorView::Store(e@),
            ProgressView::Done(_) => true,
        },
    decreases source.config@.profiles.len() - i,
{
    let profiles = source.config@.profiles;
    if i < profiles.len() {
        lemma_progress_from(
            source,
            force,
            now_epoch_secs,
            reads,
            cycle_next(
                source,
                force,
                now_epoch_secs,
                cycle,
                profiles[i as int],
                read_at(reads, i as int),
            ),
            i + 1,
        );
    }
}

/// A run stops before its end for two reasons only: for the secret of a profile that a store keeps
/// and that has not been read, where there is no secret material; or because the program's own
/// directories are not known. So one with known directories and either secret material or all such
/// secrets read comes to its end.
pub proof fn lemma_when_a_run_ends(
    source: RefreshSource,
    force: bool,
    now_epoch_secs: u64,
    reads: Seq<Option<Result<AuthSecret, StoreError>>>,
)
    ensures
        ({
            let profiles = source.config@.profiles;
            let progress = cycle_from(
                source,
                force,
                now_epoch_secs,
                reads,
                cycle_start(source),
                0,
            );
            &&& match progress {
                ProgressView::Read(k) => {
                    &&& 0 <= k < profiles.len()
                    &&& source.paths is Ok
                    &&& source.secret_material is None
                    &&& !(profiles[k].secret_ref is Managed)
                    &&& k < reads.len() ==> reads[k] is None
                },
                ProgressView::Failed(error) => source.paths matches Err(e) && error
                    == RefreshCommandErrorView::Store(e@),
                ProgressView::Done(_) => true,
            }
            &&& source.paths is Ok && source.secret_material is Some ==> progress is Done
            &&& source.paths is Ok && (forall|k: int|
                0 <= k < profiles.len() ==> !((#[trigger] profiles[k]).secret_ref is Managed) ==> k
                    < reads.len() && reads[k] is Some) ==> progress is Done
        }),
{
    lemma_progress_from(source, force, now_epoch_secs, reads, cycle_start(source), 0);
}

/// The time of a run is the one that is asked for, whatever the clock shows, else that of the clock.
pub proof fn lemma_run_times(asked: Option<u64>, current: u64)
    ensures
        asked matches Some(now) ==> run_time(asked, current) == now,
        asked is None ==> run_time(asked, current) == current,
{
}

/// So much for a run itself: one that ends has, under each profile's own id, its result and its line,
/// and is dated at the time that was asked for, or else at that of the clock.
pub proof fn lemma_ended_run(
    command: RefreshCommand,
    source: RefreshSource,
    reads: Vec<Option<Result<AuthSecret, StoreError>>>,
    r: Result<RefreshProgress, RefreshCommandError>,
    i: int,
)
    requires
        call_ensures(run_refresh_cycle, (&command, &source, &reads), r),
        ids_distinct(source.config@.profiles),
        0 <= i < source.config@.profiles.len(),
    ensures
        r matches Ok(RefreshProgress::Done(run)) ==> {
            let configured = source.config@.profiles[i];
            let known = unrefreshed(configured.profile);
            let now = match command.now_epoch_secs {
                Some(now) => now,
                None => source.current_epoch_secs,
            };
            let after = lookup(run.state@, configured.profile.id);
            &&& run.now_epoch_secs == now
            &&& after is Some
            &&& lookup(run.profile_lines@, configured.profile.id) == Some(
                run.output.lines.deep_view()[2 + i],
            )
            &&& command.force && !configured.profile.refresh_policy.allow_manual_refresh ==> after
                == Some(known)
            &&& !command.force || configured.profile.refresh_policy.allow_manual_refresh
                ==> match attempt(
                configured,
                source.secret_material.deep_view(),
                read_at(reads@, i),
                source.replay,
            ) {
                Ok(snapshot) => after == Some(succeeded(known, now, snapshot)),
                Err(error) => after == Some(failed(known, error)),
            }
        },
{
    let now = run_time(command@.now_epoch_secs, source.current_epoch_secs);
    lemma_run_of_each_profile(source, command@.force, now, reads@, i);
}

/// The report of a run is the run's own, and its error the run's own.
pub proof fn lemma_report_of_a_run(
    run: Result<RefreshRun, RefreshCommandError>,
    r: Result<RefreshCommandOutput, RefreshCommandError>,
)
    requires
        call_ensures(run_refresh_command, (run,), r),
    ensures
        r is Ok <==> run is Ok,
        r matches Ok(output) ==> output.lines.deep_view() == run->Ok_0.output.lines.deep_view(),
        r matches Err(error) ==> error@ == run->Err_0@,
{
}

/// The text of an error begins with where it arose and ends with the text of what it arose from.
pub proof fn lemma_error_texts(error: RefreshCommandErrorView, id: Seq<char>)
    ensures
        match error {
            RefreshCommandErrorView::Io(s) => error.text() == "io failure: "@ + s,
            RefreshCommandErrorView::ConfigToml(s) => error.text() == "config parse failure: "@ + s,
            RefreshCommandErrorView::SecretJson(s) => error.text()
                == "secret material parse failure: "@ + s,
            RefreshCommandErrorView::Store(e) => error.text() == "secret store failure: "@
                + e.text(),
            RefreshCommandErrorView::App(e) => error.text() == "refresh orchestration failure: "@
                + e.text(),
        },
        AppErrorView::UnknownProfile(id).text() == "unknown profile `"@ + id + "`"@,
{
}

/// The refresh command that is run is the one that the command line names, and only a refresh is.
pub proof fn lemma_dispatched(command: Command, r: Option<&RefreshCommand>)
    requires
        call_ensures(dispatch_command, (&command,), r),
    ensures
        r is Some <==> command is Refresh,
        command matches Command::Refresh(named) ==> r->0@ == named@,
{
}

} // verus!
