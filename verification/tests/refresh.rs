use aistatus::commands::{Command, RefreshCommand};
use aistatus::config::{
    AuthSecret, ConfiguredProfile, PlainConfig, SecretEntry, SecretMaterial, SecretRef,
};
use aistatus::domain::{
    AccountHealth, AccountKind, AccountProfile, AuthMode, FutureSwitchBridge,
    ProtocolAccountIdentity, ProtocolRateLimitWindow, ProviderKind, QuotaSnapshot, RefreshPolicy,
    UsageFamily,
};
use aistatus::locations::{fixture_root, resolve_refresh_config_path};
use aistatus::paths::FilePath;
use aistatus::percent::UsedPercent;
use aistatus::provider_codex::{
    AccountEnvelope, CodexProviderError, CodexProviderSnapshot, ProtocolAccount,
    ProtocolRateLimitSnapshot, ProtocolWindow, RateLimitsEnvelope,
};
use aistatus::refresh::{
    clamp_refresh_policy, AppError, RefreshRequest, RefreshState, RefreshStatus,
};
use aistatus::refresh_cycle::{
    dispatch_command, run_refresh_command, run_refresh_cycle, RefreshCommandError,
    RefreshCommandOutput, RefreshProgress, RefreshRun, RefreshSource, ReplayedResponses,
};
use aistatus::store::{AppPaths, FileSecretStore, StoreError};

fn percent(value: f64) -> UsedPercent {
    UsedPercent::from_bits(value.to_bits())
}

fn configured_profile(id: &str, interval: u64) -> ConfiguredProfile {
    ConfiguredProfile {
        profile: AccountProfile {
            id: id.to_owned(),
            display_name: format!("Profile {id}"),
            provider: ProviderKind::CodexProtocol,
            auth_mode: AuthMode::Browser,
            account_kind: AccountKind::Chatgpt,
            membership: None,
            health: AccountHealth::Stale,
            refresh_policy: RefreshPolicy {
                refresh_interval_secs: interval,
                allow_manual_refresh: true,
            },
            future_switch_bridge: FutureSwitchBridge::default(),
        },
        secret_ref: SecretRef::Managed {
            id: format!("managed-{id}"),
        },
    }
}

fn window(limit_id: &str, used: f64, mins: u32, resets_at: &str) -> ProtocolRateLimitWindow {
    ProtocolRateLimitWindow {
        limit_id: limit_id.to_owned(),
        label: None,
        used_percent: percent(used),
        window_duration_mins: mins,
        resets_at: resets_at.to_owned(),
    }
}

fn success_snapshot() -> CodexProviderSnapshot {
    CodexProviderSnapshot {
        identity: ProtocolAccountIdentity {
            account_id: "acct-1".to_owned(),
            display_name: "acct-1@example.com".to_owned(),
            account_kind: AccountKind::Chatgpt,
            plan_type: Some("plus".to_owned()),
        },
        quota_snapshot: QuotaSnapshot::from_protocol_windows(vec![
            window("codex-5h", 32.0, 300, "2026-04-10T05:00:00Z"),
            window("codex-weekly", 10.0, 10_080, "2026-04-14T00:00:00Z"),
        ]),
        usage_family: UsageFamily::SubscriptionQuota,
    }
}

fn protocol_window(used: f64, mins: u32, resets_at: &str) -> Option<ProtocolWindow> {
    Some(ProtocolWindow {
        used_percent: percent(used),
        window_duration_mins: mins,
        resets_at: resets_at.to_owned(),
    })
}

fn replay() -> ReplayedResponses {
    ReplayedResponses {
        chatgpt_account: Ok(AccountEnvelope {
            schema_version: Some("v2".to_owned()),
            account: Some(ProtocolAccount::Chatgpt {
                email: "acct@example.com".to_owned(),
                plan_type: Some("plus".to_owned()),
            }),
            error: None,
        }),
        api_key_account: Ok(AccountEnvelope {
            schema_version: Some("v2".to_owned()),
            account: Some(ProtocolAccount::ApiKey),
            error: None,
        }),
        rate_limits: Ok(RateLimitsEnvelope {
            schema_version: Some("v2".to_owned()),
            rate_limits: Some(vec![ProtocolRateLimitSnapshot {
                limit_id: Some("codex".to_owned()),
                limit_name: None,
                primary: protocol_window(42.5, 300, "2026-04-10T05:00:00Z"),
                secondary: protocol_window(15.0, 10_080, "2026-04-14T00:00:00Z"),
                plan_type: Some("plus".to_owned()),
            }]),
            rate_limits_by_limit_id: None,
            error: None,
        }),
    }
}

fn source(
    config_path: &str,
    profiles: Vec<ConfiguredProfile>,
    entries: Option<Vec<SecretEntry>>,
) -> RefreshSource {
    RefreshSource {
        config_path: FilePath::new(config_path),
        config: PlainConfig {
            version: 1,
            default_profile_id: None,
            profiles,
        },
        secret_material: entries.map(|entries| SecretMaterial { version: 1, entries }),
        paths: AppPaths::from_project_dirs(Some((FilePath::new("/c"), FilePath::new("/d")))),
        current_epoch_secs: 77,
        replay: replay(),
    }
}

fn entry(id: &str, payload: &str) -> SecretEntry {
    SecretEntry {
        profile_id: id.to_owned(),
        secret: AuthSecret::BrowserSession {
            session_payload: payload.to_owned(),
        },
    }
}

fn corrupted_session() -> RefreshSource {
    source(
        "/fixtures/corrupted-session/config.toml",
        vec![configured_profile("acct-corrupt", 300)],
        Some(vec![entry("acct-corrupt", "")]),
    )
}

fn command(force: bool) -> RefreshCommand {
    RefreshCommand {
        config: None,
        fixtures: None,
        force,
        now_epoch_secs: Some(1_000),
    }
}

fn finished(progress: Result<RefreshProgress, RefreshCommandError>) -> Result<RefreshRun, RefreshCommandError> {
    match progress {
        Ok(RefreshProgress::Done(run)) => Ok(run),
        Ok(RefreshProgress::Read(i)) => panic!("secret of profile {} is wanted", i),
        Err(error) => Err(error),
    }
}

#[test]
fn refresh_orchestrator_preserves_last_good_snapshot_on_transport_failure() {
    let mut state = RefreshState::new(&[configured_profile("acct-1", 300)]);
    state
        .apply_codex_success("acct-1", 1_000, success_snapshot())
        .expect("success should apply");
    let previous_snapshot = state.profiles.get("acct-1").unwrap().snapshot.clone();
    assert!(previous_snapshot.is_some());

    state
        .apply_codex_failure(
            "acct-1",
            CodexProviderError::Transport("network timeout".to_owned()),
        )
        .expect("failure should apply");

    let refreshed = state.profiles.get("acct-1").unwrap();
    assert_eq!(refreshed.status, RefreshStatus::Stale);
    assert_eq!(refreshed.snapshot, previous_snapshot);
}

#[test]
fn refresh_orchestrator_preserves_local_profile_id_on_success() {
    let mut state = RefreshState::new(&[configured_profile("local-acct-1", 300)]);
    let snapshot = CodexProviderSnapshot {
        identity: ProtocolAccountIdentity {
            account_id: "upstream-acct-99".to_owned(),
            display_name: "remote@example.com".to_owned(),
            account_kind: AccountKind::Chatgpt,
            plan_type: Some("pro".to_owned()),
        },
        ..success_snapshot()
    };

    state
        .apply_codex_success("local-acct-1", 1_000, snapshot)
        .expect("success should apply");

    let refreshed = state.profiles.get("local-acct-1").unwrap();
    assert_eq!(refreshed.profile.id, "local-acct-1");
    assert_eq!(refreshed.profile.display_name, "remote@example.com");
    assert_eq!(
        refreshed
            .profile
            .future_switch_bridge
            .codex_account_id
            .as_deref(),
        Some("upstream-acct-99")
    );
    assert_eq!(refreshed.status, RefreshStatus::Healthy);
    assert!(refreshed.last_error.is_none());
    assert_eq!(refreshed.last_updated_at, Some(1_000));
}

#[test]
fn refresh_orchestrator_clamps_over_aggressive_polling() {
    let clamped = clamp_refresh_policy(&RefreshPolicy {
        refresh_interval_secs: 5,
        allow_manual_refresh: true,
    });
    assert_eq!(clamped.refresh_interval_secs, 60);
}

#[test]
fn refresh_orchestrator_debounces_in_flight_manual_refresh() {
    let state = RefreshState::new(&[configured_profile("acct-1", 300)]);
    let decision = state.should_start_refresh(
        &RefreshRequest {
            profile_id: "acct-1".to_owned(),
            now_epoch_secs: 1_000,
            force: true,
        },
        true,
    );

    assert!(!decision.should_start);
    assert_eq!(decision.reason, "refresh already in flight");
}

#[test]
fn refresh_orchestrator_blocks_manual_refresh_when_policy_disallows_it() {
    let mut profile = configured_profile("acct-1", 300);
    profile.profile.refresh_policy.allow_manual_refresh = false;
    let state = RefreshState::new(&[profile]);

    let decision = state.should_start_refresh(
        &RefreshRequest {
            profile_id: "acct-1".to_owned(),
            now_epoch_secs: 1_000,
            force: true,
        },
        false,
    );

    assert!(!decision.should_start);
    assert_eq!(decision.reason, "manual refresh disabled by policy");
}

#[test]
fn refresh_orchestrator_allows_scheduled_refresh_when_due() {
    let state = RefreshState::new(&[configured_profile("acct-1", 300)]);

    let decision = state.should_start_refresh(
        &RefreshRequest {
            profile_id: "acct-1".to_owned(),
            now_epoch_secs: 1_000,
            force: false,
        },
        false,
    );

    assert!(decision.should_start);
    assert_eq!(decision.reason, "refresh interval elapsed");
}

#[test]
fn refresh_orchestrator_marks_auth_failures_as_auth_required() {
    let mut state = RefreshState::new(&[configured_profile("acct-1", 300)]);
    state
        .apply_codex_failure("acct-1", CodexProviderError::Auth("session expired".to_owned()))
        .expect("failure should apply");

    let refreshed = state.profiles.get("acct-1").unwrap();
    assert_eq!(refreshed.status, RefreshStatus::AuthRequired);
    assert_eq!(refreshed.profile.health, AccountHealth::AuthExpired);
}

#[test]
fn refresh_command_runs_real_fixture_backed_flow() {
    let config_path = resolve_refresh_config_path(
        &RefreshCommand::default(),
        &None,
        &FilePath::new("/workspace"),
    )
    .to_text();
    assert_eq!(config_path, "/workspace/.sisyphus/fixtures/sample-config.toml");
    let mut api_key = configured_profile("acct-api-key", 300);
    api_key.profile.account_kind = AccountKind::ApiKey;
    let source = source(
        &config_path,
        vec![configured_profile("acct-chatgpt-plus", 300), api_key],
        Some(vec![
            entry("acct-chatgpt-plus", "session-cookie-value"),
            SecretEntry {
                profile_id: "acct-api-key".to_owned(),
                secret: AuthSecret::ApiKey {
                    api_key: "sk-live-123".to_owned(),
                },
            },
        ]),
    );
    let output = run_refresh_command(finished(run_refresh_cycle(&command(true), &source, &vec![])))
        .expect("refresh command should succeed");

    let rendered = output.render();
    assert!(rendered.contains("source: "));
    assert!(rendered.contains("profiles: 2"));
    assert!(rendered.contains("healthy: acct-chatgpt-plus"));
    assert!(rendered.contains("healthy: acct-api-key"));
    assert!(rendered.contains("decision=manual refresh requested"));
    assert!(rendered.contains("42.5% -> 2026-04-10T05:00:00Z"));
    assert!(!rendered.contains("refresh scaffold"));
    assert_eq!(
        output.lines[2],
        "healthy: acct-chatgpt-plus | acct@example.com | decision=manual refresh requested | 5h 42.5% -> 2026-04-10T05:00:00Z | Weekly 15.0% -> 2026-04-14T00:00:00Z"
    );
}

#[test]
fn refresh_command_surfaces_fixture_auth_failures() {
    assert_eq!(
        fixture_root(&FilePath::new("/w"), &Some("corrupted-session".to_owned())),
        Some(FilePath::new("/w/.sisyphus/fixtures/corrupted-session"))
    );
    let output = run_refresh_command(finished(run_refresh_cycle(
        &command(true),
        &corrupted_session(),
        &vec![],
    )))
    .expect("refresh command should still render failures");

    let rendered = output.render();
    assert!(rendered.contains("auth_required: acct-corrupt"));
    assert!(rendered.contains("error=authentication failure: empty browser session payload"));
}

#[test]
fn refresh_cycle_returns_state_and_profile_feedback_for_tui() {
    let run = finished(run_refresh_cycle(&command(true), &corrupted_session(), &vec![]))
        .expect("refresh cycle should still return structured failures");

    assert_eq!(run.now_epoch_secs, 1_000);
    assert_eq!(
        run.state.profiles.get("acct-corrupt").unwrap().status,
        RefreshStatus::AuthRequired
    );
    assert!(run
        .profile_lines
        .get("acct-corrupt")
        .is_some_and(|line| line.contains("auth_required: acct-corrupt")));
}

#[test]
fn managed_secret_without_sidecar_does_not_refresh_as_healthy() {
    let source = source("/r/config.toml", vec![configured_profile("acct-managed", 300)], None);
    let run = finished(run_refresh_cycle(&command(true), &source, &vec![]))
        .expect("refresh cycle should render auth failures");

    let refreshed = run.state.profiles.get("acct-managed").unwrap();
    assert_eq!(refreshed.status, RefreshStatus::AuthRequired);
    assert_eq!(refreshed.profile.health, AccountHealth::AuthExpired);
    assert!(refreshed.snapshot.is_none());
    assert!(refreshed
        .last_error
        .as_ref()
        .is_some_and(|error| error.contains("managed secret ref")));
    assert!(run.output.render().contains("auth_required: acct-managed"));
}

#[test]
fn file_backend_read_failure_surfaces_as_refresh_failure() {
    let store = FileSecretStore::new(FilePath::new("/r/secrets"), FilePath::new("/r/master.key"));
    let configured = ConfiguredProfile {
        secret_ref: store.write_secret("acct-file").secret_ref,
        ..configured_profile("acct-file", 300)
    };
    let source = source("/r/config.toml", vec![configured], None);
    assert!(matches!(
        run_refresh_cycle(&command(true), &source, &vec![]),
        Ok(RefreshProgress::Read(0))
    ));
    let reads = vec![Some(Err(StoreError::Io("No such file".to_owned())))];
    let run = finished(run_refresh_cycle(&command(true), &source, &reads))
        .expect("refresh cycle should render backend failures");

    let refreshed = run.state.profiles.get("acct-file").unwrap();
    assert_eq!(refreshed.status, RefreshStatus::AuthRequired);
    assert_eq!(refreshed.profile.health, AccountHealth::AuthExpired);
    assert!(refreshed.snapshot.is_none());
    assert!(refreshed
        .last_error
        .as_ref()
        .is_some_and(|error| error.contains("io failure")));
    assert!(run.output.render().contains("auth_required: acct-file"));
}

#[test]
fn failures_are_told_apart() {
    let after = |error: CodexProviderError| {
        let mut state = RefreshState::new(&[configured_profile("a", 300)]);
        state.apply_codex_failure("a", error).unwrap();
        let known = state.profiles.get("a").unwrap();
        (known.status, known.profile.health, known.last_error.clone().unwrap())
    };
    assert_eq!(
        after(CodexProviderError::Transport("RATE Limit reached".to_owned())),
        (
            RefreshStatus::RateLimited,
            AccountHealth::RateLimited,
            "transport failure: RATE Limit reached".to_owned()
        )
    );
    assert_eq!(
        after(CodexProviderError::IncompatibleSchema {
            expected: "v2".to_owned(),
            found: "v9".to_owned()
        }),
        (
            RefreshStatus::Error,
            AccountHealth::Degraded,
            "schema incompatibility: expected v2, got v9".to_owned()
        )
    );
    assert_eq!(
        after(CodexProviderError::InvalidPayload("x".to_owned())),
        (
            RefreshStatus::Error,
            AccountHealth::Error,
            "invalid payload: x".to_owned()
        )
    );
}

#[test]
fn unknown_profiles_are_refused() {
    let mut state = RefreshState::new(&[]);
    let unknown = AppError::UnknownProfile("a".to_owned());
    assert_eq!(unknown.message(), "unknown profile `a`");
    assert_eq!(state.mark_refreshing("a"), Err(AppError::UnknownProfile("a".to_owned())));
    assert_eq!(
        state.apply_codex_success("a", 1, success_snapshot()),
        Err(AppError::UnknownProfile("a".to_owned()))
    );
    assert_eq!(
        state.apply_codex_failure("a", CodexProviderError::Auth("x".to_owned())),
        Err(AppError::UnknownProfile("a".to_owned()))
    );
    let request = RefreshRequest {
        profile_id: "a".to_owned(),
        now_epoch_secs: 1,
        force: false,
    };
    assert_eq!(state.should_start_refresh(&request, false).reason, "unknown profile");
}

#[test]
fn scheduled_refreshes_wait_for_their_interval() {
    let mut state = RefreshState::new(&[configured_profile("a", 300), configured_profile("z", u64::MAX)]);
    state.apply_codex_success("a", 1_000, success_snapshot()).unwrap();
    state.apply_codex_success("z", 1_000, success_snapshot()).unwrap();
    let decide = |id: &str, now: u64| {
        let request = RefreshRequest {
            profile_id: id.to_owned(),
            now_epoch_secs: now,
            force: false,
        };
        let decision = state.should_start_refresh(&request, false);
        (decision.should_start, decision.reason)
    };
    assert_eq!(decide("a", 1_299), (false, "next refresh due at 1300".to_owned()));
    assert_eq!(decide("a", 1_300), (true, "refresh interval elapsed".to_owned()));
    assert_eq!(
        decide("z", u64::MAX - 1),
        (false, "next refresh due at 18446744073709551615".to_owned())
    );
    assert!(decide("z", u64::MAX).0);
    let mut marked = state.clone();
    marked.mark_refreshing("a").unwrap();
    assert_eq!(marked.profiles.get("a").unwrap().status, RefreshStatus::Refreshing);
    assert_eq!(marked.profiles.get("z").unwrap().status, RefreshStatus::Healthy);
}

#[test]
fn an_account_id_of_the_bridge_stays() {
    let mut configured = configured_profile("a", 300);
    configured.profile.future_switch_bridge.codex_account_id = Some("kept".to_owned());
    let mut state = RefreshState::new(&[configured]);
    state.apply_codex_success("a", 5, success_snapshot()).unwrap();
    let known = state.profiles.get("a").unwrap();
    assert_eq!(
        known.profile.future_switch_bridge.codex_account_id.as_deref(),
        Some("kept")
    );
    assert_eq!(known.profile.refresh_policy.refresh_interval_secs, 300);
}

#[test]
fn api_usage_is_never_shown_as_a_subscription_quota() {
    let mut usage = configured_profile("usage", 300);
    usage.profile.provider = ProviderKind::OpenAiApiUsage;
    let mut other = configured_profile("other", 300);
    other.profile.provider = ProviderKind::Other("acme".to_owned());
    let source = source(
        "/c.toml",
        vec![usage, other],
        Some(vec![entry("usage", "x"), entry("other", "x")]),
    );
    let run = finished(run_refresh_cycle(&command(false), &source, &vec![])).unwrap();
    let known = run.state.profiles.get("usage").unwrap();
    assert_eq!(known.usage_family, UsageFamily::Api);
    assert!(known.snapshot.is_none());
    assert_eq!(known.status, RefreshStatus::Error);
    assert_eq!(
        run.output.lines[2],
        "error: usage | Profile usage | decision=refresh interval elapsed | no quota snapshot | error=invalid payload: refresh provider `openai_api_usage` is not supported yet"
    );
    assert_eq!(
        run.state.profiles.get("other").unwrap().last_error.as_deref(),
        Some("invalid payload: refresh provider `other` is not supported yet")
    );
}

#[test]
fn profiles_that_may_not_be_forced_are_skipped_and_not_read() {
    let mut locked = configured_profile("locked", 300);
    locked.profile.refresh_policy.allow_manual_refresh = false;
    locked.secret_ref = SecretRef::Keychain {
        service: "s".to_owned(),
        account: "a".to_owned(),
    };
    let mut source = source("/c.toml", vec![locked], None);
    let run = finished(run_refresh_cycle(&command(true), &source, &vec![])).unwrap();
    assert_eq!(
        run.output.lines,
        vec![
            "source: /c.toml",
            "profiles: 1",
            "skipped: locked | Profile locked | manual refresh disabled by policy"
        ]
    );
    assert!(matches!(
        run_refresh_cycle(&command(false), &source, &vec![None]),
        Ok(RefreshProgress::Read(0))
    ));
    let reads = vec![Some(Ok(AuthSecret::HeadlessSession {
        session_payload: " ".to_owned(),
    }))];
    let mut unset = command(false);
    unset.now_epoch_secs = None;
    let run = finished(run_refresh_cycle(&unset, &source, &reads)).unwrap();
    assert_eq!(run.now_epoch_secs, 77);
    assert!(run.output.lines[2].contains("error=authentication failure: empty browser session payload"));
    source.paths = AppPaths::from_project_dirs(None);
    let error = finished(run_refresh_cycle(&command(false), &source, &reads)).unwrap_err();
    assert_eq!(
        error.message(),
        "secret store failure: path resolution failed: unable to resolve project dirs"
    );
}

#[test]
fn a_repeated_profile_is_not_refreshed_twice_on_schedule() {
    let source = source(
        "/c.toml",
        vec![configured_profile("a", 300), configured_profile("a", 300)],
        Some(vec![entry("a", "x")]),
    );
    let run = finished(run_refresh_cycle(&command(false), &source, &vec![])).unwrap();
    assert!(run.output.lines[2].starts_with("healthy: a | acct@example.com"));
    assert_eq!(
        run.output.lines[3],
        "skipped: a | Profile a | next refresh due at 1300"
    );
    assert_eq!(run.profile_lines.get("a"), Some(&run.output.lines[3]));
}

#[test]
fn a_run_leaves_nothing_refreshing_and_reports_each_profile_once() {
    let source = source(
        "/c.toml",
        vec![configured_profile("b", 300), configured_profile("a", 300)],
        Some(vec![entry("a", "x"), entry("b", " ")]),
    );
    let run = finished(run_refresh_cycle(&command(true), &source, &vec![])).unwrap();
    assert_eq!(run.output.lines.len(), 4);
    assert_eq!(run.state.profiles.len(), 2);
    assert_eq!(run.profile_lines.len(), 2);
    for (i, id) in ["a", "b"].iter().enumerate() {
        assert_eq!(run.state.profiles.key_at(i), id);
        assert_eq!(run.profile_lines.key_at(i), id);
        assert_ne!(run.state.profiles.value_at(i).status, RefreshStatus::Refreshing);
    }
    assert_eq!(run.state.clone(), run.state);
}

#[test]
fn policies_are_brought_between_their_bounds() {
    let clamp = |secs: u64| {
        clamp_refresh_policy(&RefreshPolicy {
            refresh_interval_secs: secs,
            allow_manual_refresh: false,
        })
    };
    assert_eq!(clamp(59).refresh_interval_secs, 60);
    assert_eq!(clamp(61).refresh_interval_secs, 61);
    assert_eq!(clamp(3_600).refresh_interval_secs, 3_600);
    assert_eq!(clamp(u64::MAX).refresh_interval_secs, 3_600);
    assert!(!clamp(1).allow_manual_refresh);
}

#[test]
fn only_refresh_commands_are_dispatched() {
    assert!(dispatch_command(&Command::Refresh(command(true))).unwrap().force);
    assert!(dispatch_command(&Command::Help).is_none());
    let output = RefreshCommandOutput {
        lines: vec!["a".to_owned(), "b".to_owned()],
    };
    assert_eq!(output.render(), "a\nb");
}

#[test]
fn errors_of_a_run_have_their_texts() {
    assert_eq!(RefreshCommandError::Io("x".to_owned()).message(), "io failure: x");
    assert_eq!(
        RefreshCommandError::ConfigToml("x".to_owned()).message(),
        "config parse failure: x"
    );
    assert_eq!(
        RefreshCommandError::SecretJson("x".to_owned()).message(),
        "secret material parse failure: x"
    );
    assert_eq!(
        RefreshCommandError::App(AppError::UnknownProfile("a".to_owned())).message(),
        "refresh orchestration failure: unknown profile `a`"
    );
}
