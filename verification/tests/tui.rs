use aistatus::clock::{current_epoch_secs, epoch_secs};
use aistatus::commands::RefreshCommand;
use aistatus::config::{
    AuthSecret, ConfiguredProfile, PlainConfig, SecretEntry, SecretMaterial, SecretRef,
};
use aistatus::domain::{
    AccountHealth, AccountKind, AccountMembership, AccountProfile, AuthMode, FutureSwitchBridge,
    MembershipTier, ProtocolRateLimitWindow, ProviderKind, QuotaSnapshot, RefreshPolicy,
};
use aistatus::paths::FilePath;
use aistatus::percent::UsedPercent;
use aistatus::refresh::{RefreshState, RefreshStatus};
use aistatus::refresh_cycle::{
    run_refresh_cycle, RefreshCommandError, RefreshProgress, RefreshSource, ReplayedResponses,
};
use aistatus::store::AppPaths;
use aistatus::tui::{
    load_fixture, load_fixture_state, DetailView, Key, KeyOutcome, LoadedTuiFixture, TuiError,
    TuiModel,
};
use aistatus::tui_render::{
    format_duration, list_selection, render_account_list, render_detail_panel,
    render_detail_title, render_help_overlay, render_to_string, StatusColor,
};

fn configured(
    id: &str,
    name: &str,
    auth_mode: AuthMode,
    tier: MembershipTier,
    plan: &str,
    health: AccountHealth,
) -> ConfiguredProfile {
    ConfiguredProfile {
        profile: AccountProfile {
            id: id.to_owned(),
            display_name: name.to_owned(),
            provider: ProviderKind::CodexProtocol,
            auth_mode,
            account_kind: AccountKind::Chatgpt,
            membership: Some(AccountMembership {
                tier,
                raw_plan_type: Some(plan.to_owned()),
            }),
            health,
            refresh_policy: RefreshPolicy {
                refresh_interval_secs: 300,
                allow_manual_refresh: true,
            },
            future_switch_bridge: FutureSwitchBridge::default(),
        },
        secret_ref: SecretRef::Managed {
            id: format!("managed-{id}"),
        },
    }
}

fn sample_profiles() -> Vec<ConfiguredProfile> {
    vec![
        configured(
            "acct-plus",
            "Primary ChatGPT",
            AuthMode::Browser,
            MembershipTier::Plus,
            "plus",
            AccountHealth::Healthy,
        ),
        configured(
            "acct-pro",
            "Work Pro",
            AuthMode::Headless,
            MembershipTier::Pro,
            "pro",
            AccountHealth::Stale,
        ),
        configured(
            "acct-broken",
            "Broken Browser Session",
            AuthMode::Browser,
            MembershipTier::Unknown,
            "unknown",
            AccountHealth::Error,
        ),
    ]
}

fn window(limit_id: &str, used: f64, mins: u32, resets_at: &str) -> ProtocolRateLimitWindow {
    ProtocolRateLimitWindow {
        limit_id: limit_id.to_owned(),
        label: None,
        used_percent: UsedPercent::from_bits(used.to_bits()),
        window_duration_mins: mins,
        resets_at: resets_at.to_owned(),
    }
}

fn snapshot(five_hour: f64, weekly: f64) -> QuotaSnapshot {
    QuotaSnapshot::from_protocol_windows(vec![
        window("codex-5h", five_hour, 300, "2026-04-10T05:00:00Z"),
        window("codex-weekly", weekly, 10_080, "2026-04-14T00:00:00Z"),
    ])
}

fn sample_state() -> RefreshState {
    let mut state = RefreshState::new(&sample_profiles());

    let mut first = state.profiles.get("acct-plus").unwrap().clone();
    first.snapshot = Some(snapshot(42.5, 15.0));
    first.status = RefreshStatus::Healthy;
    first.last_updated_at = Some(1_712_700_000);
    state.profiles.insert("acct-plus".to_owned(), first);

    let mut second = state.profiles.get("acct-pro").unwrap().clone();
    second.snapshot = Some(snapshot(82.0, 65.0));
    second.status = RefreshStatus::Stale;
    second.last_updated_at = Some(1_712_700_300);
    state.profiles.insert("acct-pro".to_owned(), second);

    let mut third = state.profiles.get("acct-broken").unwrap().clone();
    third.status = RefreshStatus::Error;
    third.last_error = Some("empty browser session payload".to_owned());
    state.profiles.insert("acct-broken".to_owned(), third);

    state
}

fn selected_id(model: &TuiModel) -> Option<String> {
    model.selected_profile().map(|profile| profile.profile.id.clone())
}

#[test]
fn view_snapshots_render_fixture_state() {
    let mut model = TuiModel::new("aistatus", sample_state());
    model.next();
    let rendered = render_to_string(&model, 100, 30);

    assert!(rendered.contains("Primary ChatGPT"));
    assert!(rendered.contains("provider=codex_protocol"));
    assert!(rendered.contains("health=healthy"));
    assert!(rendered.contains("age=5m"));
    assert!(rendered.contains("5h: 42.5%"));
    assert!(rendered.contains("weekly: 15.0%"));
    assert!(rendered.contains("refresh interval: 300s"));
    assert!(rendered.contains("auth mode: browser"));
    assert!(rendered.contains("protocol compatibility: compatible (schema v2)"));
    assert!(rendered.contains("weekly summary: Weekly | 15.0% used"));
}

#[test]
fn view_snapshots_toggle_help_and_navigation() {
    let mut model = TuiModel::new("aistatus", sample_state());
    let initial = selected_id(&model);
    model.toggle_help();
    model.next();
    let rendered = render_to_string(&model, 100, 30);

    assert!(rendered.contains(
        "Help: j/k or arrows move | r refresh | a account view | d diagnostics view | ? help | q quit"
    ));
    assert_ne!(selected_id(&model), initial);
}

fn sample_fixture() -> LoadedTuiFixture {
    LoadedTuiFixture {
        state: sample_state(),
        refresh_command: Some(RefreshCommand {
            config: None,
            fixtures: Some("sample-quotas".to_owned()),
            force: true,
            now_epoch_secs: Some(1_712_700_600),
        }),
    }
}

fn sample_source() -> RefreshSource {
    RefreshSource {
        config_path: FilePath::new("/w/.sisyphus/fixtures/sample-quotas/config.toml"),
        config: PlainConfig {
            version: 1,
            default_profile_id: None,
            profiles: sample_profiles(),
        },
        secret_material: Some(SecretMaterial {
            version: 1,
            entries: vec![SecretEntry {
                profile_id: "acct-broken".to_owned(),
                secret: AuthSecret::BrowserSession {
                    session_payload: "".to_owned(),
                },
            }],
        }),
        paths: AppPaths::from_project_dirs(Some((FilePath::new("/c"), FilePath::new("/d")))),
        current_epoch_secs: 0,
        replay: ReplayedResponses {
            chatgpt_account: Err("unused".to_owned()),
            api_key_account: Err("unused".to_owned()),
            rate_limits: Err("unused".to_owned()),
        },
    }
}

#[test]
fn diagnostics_view_shows_refresh_feedback() {
    let loaded = load_fixture(Ok(sample_fixture())).expect("fixture should parse");
    let mut model =
        TuiModel::new("aistatus", loaded.state).with_refresh_command(loaded.refresh_command);
    model.show_diagnostics_view();
    let command = model.begin_refresh(current_epoch_secs()).expect("a command to run");
    match run_refresh_cycle(&command, &sample_source(), &vec![]) {
        Ok(RefreshProgress::Done(run)) => model.refresh_selected(Ok(run)),
        other => panic!("unexpected {:?}", other),
    }
    let rendered = render_to_string(&model, 100, 30);

    assert!(rendered.contains("view: diagnostics"));
    assert!(rendered.contains("last refresh feedback: auth_required: acct-broken"));
    assert!(rendered.contains("protocol compatibility: compatible (schema v2)"));
    assert!(
        rendered.contains("last error: authentication failure: empty browser session payload")
    );
    assert_eq!(model.now_epoch_secs, 1_712_700_600);
}

#[test]
fn fixture_loader_parses_refresh_state() {
    let loaded = load_fixture(Ok(sample_fixture())).expect("fixture should parse");
    assert_eq!(loaded.state.profiles.len(), 3);
    assert_eq!(
        loaded.refresh_command.and_then(|command| command.fixtures),
        Some("sample-quotas".to_owned())
    );
    assert_eq!(load_fixture_state(Ok(sample_fixture())), Ok(sample_state()));
    let error = load_fixture_state(Err("eof".to_owned())).unwrap_err();
    assert_eq!(error, TuiError::Fixture("eof".to_owned()));
    assert_eq!(error.message(), "fixture parse failure: eof");
    assert_eq!(TuiError::Io("x".to_owned()).message(), "io failure: x");
}

#[test]
fn the_plain_rendering_is_exact() {
    let mut model = TuiModel::new("aistatus", sample_state());
    model.show_diagnostics_view();
    model.next();
    assert_eq!(
        render_to_string(&model, 5, 2),
        "aistatus [5x2]\n\
         =====\n  \
         Broken Browser Session | status=error | provider=codex_protocol | health=error | age=never | 5h: -- | weekly: -- | membership=unknown\n\
         > Primary ChatGPT | status=healthy | provider=codex_protocol | health=healthy | age=5m | 5h: 42.5% | weekly: 15.0% | membership=plus\n  \
         Work Pro | status=stale | provider=codex_protocol | health=stale | age=0s | 5h: 82.0% | weekly: 65.0% | membership=pro\n\
         \n\
         Detail: Primary ChatGPT\n  \
         view: diagnostics\n  \
         account: chatgpt\n  \
         membership: plus\n  \
         usage family: subscription_quota\n  \
         provider: codex_protocol\n  \
         auth mode: browser\n  \
         refresh interval: 300s\n  \
         manual refresh: enabled\n  \
         status: healthy\n  \
         health: healthy\n  \
         last refresh age: 5m\n  \
         protocol compatibility: compatible (schema v2)\n  \
         last error: none\n\
         last refresh feedback: none\n  \
         - 5h | 42.5% used | resets 2026-04-10T05:00:00Z | 300 mins\n  \
         - Weekly | 15.0% used | resets 2026-04-14T00:00:00Z | 10080 mins"
    );
    let empty = TuiModel::new("t", RefreshState::new(&[]));
    assert_eq!(
        render_to_string(&empty, 200, 1),
        format!("t [200x1]\n{}\n", "=".repeat(80))
    );
}

#[test]
fn the_drawn_panel_has_its_lines() {
    let mut model = TuiModel::new("aistatus", sample_state());
    let items = render_account_list(&model);
    assert_eq!(items.len(), 3);
    assert_eq!(items[1].name, "Primary ChatGPT");
    assert_eq!(items[1].status, "  [healthy]");
    assert_eq!(items[1].status_color, StatusColor::Green);
    assert_eq!(items[0].status_color, StatusColor::Red);
    assert_eq!(items[2].status_color, StatusColor::Yellow);
    assert_eq!(
        items[1].health_line,
        "provider=codex_protocol | health=healthy | age=5m"
    );
    assert_eq!(items[1].quota_line, "5h: 42.5% | weekly: 15.0% | membership=plus");
    assert_eq!(list_selection(&model), Some(0));
    assert_eq!(render_detail_title(&model), "Detail (account)");

    let lines = render_detail_panel(&model);
    assert_eq!(lines.len(), 16);
    assert_eq!(lines[0], "Broken Browser Session");
    assert_eq!(lines[1], "view: account   [a] account  [d] diagnostics");
    assert_eq!(lines[12], "last error: empty browser session payload");
    assert_eq!(lines[13], "");
    assert_eq!(lines[14], "5h summary: unavailable");
    model.show_diagnostics_view();
    let lines = render_detail_panel(&model);
    assert_eq!(lines[14], "last refresh feedback: none");
    assert_eq!(lines[15], "no quota snapshot");
    model.next();
    let lines = render_detail_panel(&model);
    assert_eq!(
        lines[15],
        "5h | 42.5% used | resets 2026-04-10T05:00:00Z | 300 mins"
    );

    let empty = TuiModel::new("t", RefreshState::new(&[]));
    assert_eq!(render_detail_panel(&empty), vec!["no profiles loaded"]);
    assert_eq!(list_selection(&empty), None);
    assert_eq!(render_help_overlay().len(), 8);
    assert_eq!(render_help_overlay()[1], "j / ↓ : next account");
}

#[test]
fn keys_do_what_the_help_says() {
    let mut model = TuiModel::new("aistatus", sample_state());
    assert_eq!(model.handle_key(Key::Char('j')), KeyOutcome::Continue);
    assert_eq!(model.selected_profile, 1);
    assert_eq!(model.handle_key(Key::Down), KeyOutcome::Continue);
    assert_eq!(model.handle_key(Key::Down), KeyOutcome::Continue);
    assert_eq!(model.selected_profile, 0);
    assert_eq!(model.handle_key(Key::Up), KeyOutcome::Continue);
    assert_eq!(model.selected_profile, 2);
    assert_eq!(model.handle_key(Key::Char('k')), KeyOutcome::Continue);
    assert_eq!(model.selected_profile, 1);
    model.handle_key(Key::Char('d'));
    assert_eq!(model.detail_view, DetailView::Diagnostics);
    model.handle_key(Key::Char('a'));
    assert_eq!(model.detail_view, DetailView::Account);
    model.handle_key(Key::Char('?'));
    assert!(model.show_help);
    assert_eq!(model.handle_key(Key::Char('r')), KeyOutcome::Refresh);
    assert_eq!(model.handle_key(Key::Char('x')), KeyOutcome::Continue);
    assert_eq!(model.handle_key(Key::Other), KeyOutcome::Continue);
    assert_eq!(model.handle_key(Key::Char('q')), KeyOutcome::Quit);
    assert_eq!(model.selected_profile, 1);
}

#[test]
fn an_empty_panel_selects_nothing() {
    let mut model = TuiModel::new("t", RefreshState::new(&[]));
    model.next();
    assert_eq!(model.selected_profile, 0);
    model.previous();
    assert_eq!(model.selected_profile, 0);
    assert!(model.selected_profile().is_none());
}

#[test]
fn refreshes_that_cannot_run_or_fail_say_so() {
    let mut model = TuiModel::new("t", sample_state());
    assert!(model.begin_refresh(5).is_none());
    assert_eq!(
        model.last_refresh_feedback.as_deref(),
        Some("refresh unavailable: no fixture/config refresh source configured")
    );
    model.refresh_selected(Err(RefreshCommandError::Io("gone".to_owned())));
    assert_eq!(
        model.last_refresh_feedback.as_deref(),
        Some("refresh failed: io failure: gone")
    );
    assert_eq!(model.state, sample_state());
}

#[test]
fn the_time_of_a_refresh_never_runs_backwards() {
    let command = RefreshCommand {
        config: None,
        fixtures: None,
        force: false,
        now_epoch_secs: None,
    };
    let mut model = TuiModel::new("t", sample_state()).with_refresh_command(Some(command));
    assert_eq!(model.now_epoch_secs, 1_712_700_300);
    assert_eq!(
        model.begin_refresh(5).unwrap().now_epoch_secs,
        Some(1_712_700_300)
    );
    assert_eq!(
        model.begin_refresh(u64::MAX).unwrap().now_epoch_secs,
        Some(u64::MAX)
    );
    let unset = TuiModel::new("t", RefreshState::new(&[]));
    assert!(unset.now_epoch_secs > 1_700_000_000);
}

#[test]
fn a_clock_before_the_epoch_counts_as_the_epoch() {
    assert_eq!(epoch_secs(None), 0);
    assert_eq!(epoch_secs(Some(0)), 0);
    assert_eq!(epoch_secs(Some(1_712_700_300)), 1_712_700_300);
    let before = std::time::SystemTime::now()
        .duration_since(std::time::SystemTime::UNIX_EPOCH)
        .unwrap()
        .as_secs();
    let read = current_epoch_secs();
    assert!(before <= read && read <= before + 60);
}

#[test]
fn the_selection_follows_its_account() {
    let mut model = TuiModel::new("t", sample_state());
    model.next();
    model.next();
    assert_eq!(selected_id(&model).as_deref(), Some("acct-pro"));
    let mut source = sample_source();
    source.config.profiles.remove(2);
    match run_refresh_cycle(&RefreshCommand::default(), &source, &vec![]) {
        Ok(RefreshProgress::Done(run)) => model.refresh_selected(Ok(run)),
        other => panic!("unexpected {:?}", other),
    }
    assert_eq!(model.selected_profile, 1);
    assert_eq!(selected_id(&model).as_deref(), Some("acct-pro"));
    assert!(model
        .last_refresh_feedback
        .as_ref()
        .is_some_and(|line| line.starts_with("auth_required: acct-pro")));

    source.config.profiles.remove(1);
    match run_refresh_cycle(&RefreshCommand::default(), &source, &vec![]) {
        Ok(RefreshProgress::Done(run)) => model.refresh_selected(Ok(run)),
        other => panic!("unexpected {:?}", other),
    }
    assert_eq!(model.selected_profile, 0);
    assert_eq!(
        model.last_refresh_feedback.as_ref().map(|text| text.lines().count()),
        Some(3)
    );
}

#[test]
fn ages_are_told_in_their_largest_unit() {
    assert_eq!(format_duration(0), "0s");
    assert_eq!(format_duration(59), "59s");
    assert_eq!(format_duration(60), "1m");
    assert_eq!(format_duration(3_599), "59m");
    assert_eq!(format_duration(3_600), "1h");
    assert_eq!(format_duration(86_399), "23h");
    assert_eq!(format_duration(86_400), "1d");
    assert_eq!(format_duration(u64::MAX), "213503982334601d");
}

#[test]
fn schema_drift_is_shown() {
    let mut state = sample_state();
    let mut known = state.profiles.get("acct-pro").unwrap().clone();
    known.last_error = Some("Schema Incompatibility: expected v2, got v3".to_owned());
    state.profiles.insert("acct-pro".to_owned(), known);
    let mut known = state.profiles.get("acct-plus").unwrap().clone();
    known.profile.provider = ProviderKind::Other("acme".to_owned());
    known.profile.membership = Some(AccountMembership {
        tier: MembershipTier::Other,
        raw_plan_type: Some("galaxy".to_owned()),
    });
    state.profiles.insert("acct-plus".to_owned(), known);
    let mut model = TuiModel::new("t", state);
    model.next();
    let rendered = render_to_string(&model, 10, 10);
    assert!(rendered.contains("protocol compatibility: unknown (acme)"));
    assert!(rendered.contains("membership: galaxy"));
    model.next();
    assert!(render_to_string(&model, 10, 10)
        .contains("protocol compatibility: incompatible (schema drift)"));
}
