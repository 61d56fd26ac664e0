use aistatus::auth::{
    dispatch_profile_command, finish_login, migrate_secret_material_to_file_store,
    migration_secret, run_profile_command, AuthError, ProfileCommandOutput, ProfileRepository,
    ProfileStep,
};
use aistatus::commands::{Command, ProfileCommand, ProfileCommandAction};
use aistatus::config::{
    AuthSecret, ConfiguredProfile, PlainConfig, SecretEntry, SecretMaterial, SecretRef,
};
use aistatus::domain::{
    AccountHealth, AccountKind, AccountMembership, AccountProfile, AuthMode, FutureSwitchBridge,
    MembershipTier, ProviderKind, RefreshPolicy,
};
use aistatus::locations::resolve_profile_config_path;
use aistatus::paths::FilePath;
use aistatus::store::{FileSecretStore, StoreError};

fn sample_profile(profile_id: &str) -> AccountProfile {
    AccountProfile {
        id: profile_id.to_owned(),
        display_name: "Primary".to_owned(),
        provider: ProviderKind::CodexProtocol,
        auth_mode: AuthMode::Browser,
        account_kind: AccountKind::Chatgpt,
        membership: Some(AccountMembership {
            tier: MembershipTier::Plus,
            raw_plan_type: Some("plus".to_owned()),
        }),
        health: AccountHealth::Healthy,
        refresh_policy: RefreshPolicy {
            refresh_interval_secs: 300,
            allow_manual_refresh: true,
        },
        future_switch_bridge: FutureSwitchBridge::default(),
    }
}

fn managed(id: &str) -> SecretRef {
    SecretRef::Managed { id: id.to_owned() }
}

fn repository(ids: &[&str]) -> ProfileRepository {
    ProfileRepository {
        config: PlainConfig {
            version: 1,
            default_profile_id: ids.first().map(|id| id.to_string()),
            profiles: ids
                .iter()
                .map(|id| ConfiguredProfile {
                    profile: sample_profile(id),
                    secret_ref: managed(&format!("managed-{id}")),
                })
                .collect(),
        },
    }
}

fn add(id: &str, name: &str, auth_mode: &str, kind: &str, plus: bool) -> ProfileCommandAction {
    let plan = if plus { Some("plus".to_owned()) } else { None };
    ProfileCommandAction::Add {
        profile_id: id.to_owned(),
        display_name: name.to_owned(),
        auth_mode: auth_mode.to_owned(),
        account_kind: kind.to_owned(),
        provider: "codex_protocol".to_owned(),
        membership_tier: plan.clone(),
        plan_type: plan,
    }
}

fn saved(step: Result<ProfileStep, AuthError>) -> ProfileCommandOutput {
    match step {
        Ok(ProfileStep::Save(output)) => output,
        other => panic!("unexpected {:?}", other),
    }
}

fn list(repository: &mut ProfileRepository) -> String {
    match run_profile_command(&ProfileCommandAction::List, repository) {
        Ok(ProfileStep::Show(output)) => output.render(),
        other => panic!("unexpected {:?}", other),
    }
}

#[test]
fn repository_upsert_and_remove_profiles() {
    let mut repository = repository(&[]);

    repository.upsert(sample_profile("acct-1"), managed("managed-1"));
    assert_eq!(repository.list().len(), 1);

    let removed = repository.remove("acct-1").expect("profile should exist");
    assert_eq!(removed.profile.id, "acct-1");
    assert!(repository.list().is_empty());
}

#[test]
fn migration_moves_legacy_secret_material_into_file_store_refs() {
    let store = FileSecretStore::new(FilePath::new("/r/secrets"), FilePath::new("/r/master.key"));
    let mut repository = ProfileRepository {
        config: PlainConfig {
            version: 1,
            default_profile_id: Some("acct-1".to_owned()),
            profiles: vec![ConfiguredProfile {
                profile: sample_profile("acct-1"),
                secret_ref: managed("legacy-1"),
            }],
        },
    };
    let secret_material = SecretMaterial {
        version: 1,
        entries: vec![SecretEntry {
            profile_id: "acct-1".to_owned(),
            secret: AuthSecret::BrowserSession {
                session_payload: "cookie=value".to_owned(),
            },
        }],
    };
    assert!(matches!(
        migration_secret(&repository.list()[0], &secret_material),
        Ok(AuthSecret::BrowserSession { session_payload }) if session_payload == "cookie=value"
    ));
    let written = vec![Ok(store.write_secret("acct-1").secret_ref)];

    migrate_secret_material_to_file_store(&mut repository, &secret_material, &written)
        .expect("migration should succeed");

    assert!(matches!(
        repository.list()[0].secret_ref,
        SecretRef::File { .. }
    ));
}

#[test]
fn migration_stops_at_the_first_profile_that_fails() {
    let entry = |id: &str| SecretEntry {
        profile_id: id.to_owned(),
        secret: AuthSecret::ApiKey { api_key: "k".to_owned() },
    };
    let file = |path: &str| SecretRef::File { path: path.to_owned(), key_path: None };
    let material = SecretMaterial {
        version: 1,
        entries: vec![entry("a"), entry("c")],
    };
    let mut missing = repository(&["a", "b", "c"]);
    assert_eq!(
        migrate_secret_material_to_file_store(&mut missing, &material, &vec![Ok(file("/a"))]),
        Err(AuthError::Store(StoreError::MissingSecret("b".to_owned())))
    );
    assert_eq!(missing.list()[0].secret_ref, file("/a"));
    assert_eq!(missing.list()[1].secret_ref, managed("managed-b"));

    let mut unwritten = repository(&["a", "c"]);
    assert_eq!(
        migrate_secret_material_to_file_store(
            &mut unwritten,
            &material,
            &vec![Err(StoreError::Encryption)]
        ),
        Err(AuthError::Store(StoreError::Encryption))
    );
    assert_eq!(unwritten.list()[0].secret_ref, managed("managed-a"));
}

#[test]
fn profile_commands_list_and_set_default_are_deterministic() {
    let mut repository = repository(&[]);

    saved(run_profile_command(
        &add("acct-primary", "Primary", "browser", "chatgpt", true),
        &mut repository,
    ));
    saved(run_profile_command(
        &add("acct-secondary", "Secondary", "api_key", "api_key", false),
        &mut repository,
    ));

    let list_before = list(&mut repository);
    assert!(list_before.contains("* acct-primary"));
    assert_eq!(
        list_before,
        "* acct-primary | Primary | browser | chatgpt\n  acct-secondary | Secondary | api_key | api_key"
    );

    saved(run_profile_command(
        &ProfileCommandAction::SetDefault {
            profile_id: "acct-secondary".to_owned(),
        },
        &mut repository,
    ));

    let list_after = list(&mut repository);
    assert!(list_after.contains("* acct-secondary"));
}

#[test]
fn profile_add_rejects_unknown_auth_mode_without_writing_config() {
    let mut repository = repository(&[]);
    let error = run_profile_command(
        &add("acct-invalid", "Invalid", "cookiejar", "chatgpt", false),
        &mut repository,
    )
    .expect_err("invalid auth mode should fail");

    assert_eq!(error.message(), "invalid auth mode `cookiejar`");
    assert!(matches!(error, AuthError::InvalidAuthMode(mode) if mode == "cookiejar"));
    assert!(
        repository.list().is_empty(),
        "invalid add should not persist config"
    );
}

#[test]
fn profile_login_rejects_unknown_auth_mode_without_persisting_changes() {
    let mut repository = repository(&[]);
    repository.upsert(sample_profile("acct-login"), managed("managed-login"));

    let error = run_profile_command(
        &ProfileCommandAction::Login {
            profile_id: "acct-login".to_owned(),
            auth_mode: "cookiejar".to_owned(),
            secret: "payload".to_owned(),
            use_file_store: false,
        },
        &mut repository,
    )
    .expect_err("invalid auth mode should fail");

    assert!(matches!(error, AuthError::InvalidAuthMode(mode) if mode == "cookiejar"));
    assert_eq!(repository.list()[0].profile.auth_mode, AuthMode::Browser);
    assert!(matches!(
        repository.list()[0].secret_ref,
        SecretRef::Managed { .. }
    ));
}

#[test]
fn new_profiles_have_the_documented_defaults() {
    let mut repository = repository(&[]);
    let output = saved(run_profile_command(
        &add("acct-plus", "Primary ChatGPT", "browser", "chatgpt", true),
        &mut repository,
    ));
    assert_eq!(output.render(), "added profile `acct-plus`");
    assert_eq!(repository.config.default_profile_id.as_deref(), Some("acct-plus"));
    let configured = &repository.list()[0];
    assert_eq!(configured.secret_ref, managed("managed-acct-plus"));
    assert_eq!(
        configured.profile,
        AccountProfile {
            display_name: "Primary ChatGPT".to_owned(),
            ..sample_profile("acct-plus")
        }
    );
}

#[test]
fn edits_change_what_they_name() {
    let mut repository = repository(&["a", "b"]);
    let output = saved(run_profile_command(
        &ProfileCommandAction::Edit {
            profile_id: "b".to_owned(),
            display_name: Some("B".to_owned()),
            refresh_interval_secs: Some(42),
            membership_tier: None,
            plan_type: Some(" Galaxy ".to_owned()),
        },
        &mut repository,
    ));
    assert_eq!(output.render(), "updated profile `b`");
    assert_eq!(repository.list()[0].profile, sample_profile("a"));
    let edited = &repository.list()[1].profile;
    assert_eq!(edited.display_name, "B");
    assert_eq!(edited.refresh_policy.refresh_interval_secs, 42);
    assert_eq!(
        edited.membership,
        Some(AccountMembership {
            tier: MembershipTier::Other,
            raw_plan_type: Some(" Galaxy ".to_owned()),
        })
    );
    saved(run_profile_command(
        &ProfileCommandAction::Edit {
            profile_id: "b".to_owned(),
            display_name: None,
            refresh_interval_secs: None,
            membership_tier: Some("enterprise".to_owned()),
            plan_type: None,
        },
        &mut repository,
    ));
    let edited = &repository.list()[1].profile;
    assert_eq!(edited.display_name, "B");
    assert_eq!(
        edited.membership,
        Some(AccountMembership {
            tier: MembershipTier::Enterprise,
            raw_plan_type: None,
        })
    );
}

#[test]
fn commands_on_missing_profiles_fail_and_change_nothing() {
    let missing = "ghost".to_owned();
    let actions = vec![
        ProfileCommandAction::Edit {
            profile_id: missing.clone(),
            display_name: None,
            refresh_interval_secs: None,
            membership_tier: None,
            plan_type: None,
        },
        ProfileCommandAction::SetDefault { profile_id: missing.clone() },
        ProfileCommandAction::Remove { profile_id: missing.clone() },
        ProfileCommandAction::Login {
            profile_id: missing.clone(),
            auth_mode: "cookiejar".to_owned(),
            secret: "s".to_owned(),
            use_file_store: true,
        },
        ProfileCommandAction::Logout { profile_id: missing.clone() },
    ];
    for action in actions {
        let mut repository = repository(&["a"]);
        let before = repository.config.clone();
        let error = run_profile_command(&action, &mut repository).unwrap_err();
        assert_eq!(error.message(), "profile `ghost` not found");
        assert_eq!(error, AuthError::MissingProfile(missing.clone()));
        assert_eq!(repository.config, before);
    }
}

#[test]
fn removing_the_default_profile_passes_the_default_on() {
    let mut repository = repository(&["a", "b"]);
    let output = saved(run_profile_command(
        &ProfileCommandAction::Remove { profile_id: "a".to_owned() },
        &mut repository,
    ));
    assert_eq!(output.render(), "removed profile `a`");
    assert_eq!(repository.config.default_profile_id.as_deref(), Some("b"));
    saved(run_profile_command(
        &ProfileCommandAction::Remove { profile_id: "b".to_owned() },
        &mut repository,
    ));
    assert_eq!(repository.config.default_profile_id, None);
    assert!(repository.list().is_empty());
}

#[test]
fn logins_are_written_and_logouts_deleted() {
    let mut repository = repository(&["a"]);
    let step = run_profile_command(
        &ProfileCommandAction::Login {
            profile_id: "a".to_owned(),
            auth_mode: "api_key".to_owned(),
            secret: "sk-live-123".to_owned(),
            use_file_store: true,
        },
        &mut repository,
    )
    .unwrap();
    match step {
        ProfileStep::WriteSecret { profile_id, auth_mode, secret, use_file_store } => {
            assert_eq!(profile_id, "a");
            assert_eq!(auth_mode, AuthMode::ApiKey);
            assert_eq!(secret, AuthSecret::ApiKey { api_key: "sk-live-123".to_owned() });
            assert!(use_file_store);
        }
        other => panic!("unexpected {:?}", other),
    }
    assert_eq!(repository.list()[0].profile.auth_mode, AuthMode::Browser);

    let failed = finish_login(
        &mut repository,
        "a",
        AuthMode::ApiKey,
        Err(StoreError::Io("disk full".to_owned())),
    )
    .unwrap_err();
    assert_eq!(failed.message(), "store failure: io failure: disk full");
    assert_eq!(repository.list()[0].secret_ref, managed("managed-a"));

    let file = SecretRef::File { path: "/p".to_owned(), key_path: None };
    let output =
        finish_login(&mut repository, "a", AuthMode::ApiKey, Ok(file.clone())).unwrap();
    assert_eq!(output.render(), "stored login material for `a`");
    assert_eq!(repository.list()[0].profile.auth_mode, AuthMode::ApiKey);
    assert_eq!(repository.list()[0].secret_ref, file);

    match run_profile_command(
        &ProfileCommandAction::Logout { profile_id: "a".to_owned() },
        &mut repository,
    )
    .unwrap()
    {
        ProfileStep::DeleteSecret { secret_ref, profile_id, output } => {
            assert_eq!(secret_ref, file);
            assert_eq!(profile_id, "a");
            assert_eq!(output.render(), "cleared login material for `a`");
        }
        other => panic!("unexpected {:?}", other),
    }
    assert_eq!(repository.list()[0].secret_ref, managed("logged-out-a"));
}

#[test]
fn profiles_are_found_and_changed_in_place() {
    let mut repository = repository(&["a", "b"]);
    assert!(repository.find("c").is_none());
    assert!(repository.find_mut("c").is_none());
    if let Some(configured) = repository.find_mut("b") {
        configured.profile.display_name = "Changed".to_owned();
    }
    assert_eq!(repository.find("b").unwrap().profile.display_name, "Changed");
    assert_eq!(repository.find("a").unwrap().profile.display_name, "Primary");
    repository.upsert(sample_profile("b"), managed("again"));
    assert_eq!(repository.list().len(), 2);
    assert_eq!(repository.find("b").unwrap().secret_ref, managed("again"));
    assert_eq!(
        repository.set_default("c"),
        Err(AuthError::MissingProfile("c".to_owned()))
    );
    assert_eq!(
        repository.remove("c"),
        Err(AuthError::MissingProfile("c".to_owned()))
    );
}

#[test]
fn only_profile_commands_are_dispatched() {
    let command = Command::Profile(ProfileCommand {
        config: Some("/tmp/c.toml".to_owned()),
        action: ProfileCommandAction::List,
    });
    let profile = dispatch_profile_command(&command).unwrap();
    assert_eq!(resolve_profile_config_path(profile).unwrap(), FilePath::new("/tmp/c.toml"));
    assert!(dispatch_profile_command(&Command::Help).is_none());
}

#[test]
fn errors_of_profile_commands_have_their_texts() {
    assert_eq!(AuthError::Io("x".to_owned()).message(), "io failure: x");
    assert_eq!(AuthError::ConfigToml("x".to_owned()).message(), "config parse failure: x");
    assert_eq!(
        AuthError::ConfigTomlWrite("x".to_owned()).message(),
        "config render failure: x"
    );
    assert_eq!(
        AuthError::SecretJson("x".to_owned()).message(),
        "secret material parse failure: x"
    );
}

#[test]
fn the_configuration_after_a_login_is_the_same_for_every_secret() {
    let store = FileSecretStore::new(FilePath::new("/s"), FilePath::new("/k"));
    let mut after = Vec::new();
    for secret in ["sk-live-123", "sk-live-456"] {
        let mut repository = repository(&["a"]);
        let step = run_profile_command(
            &ProfileCommandAction::Login {
                profile_id: "a".to_owned(),
                auth_mode: "api_key".to_owned(),
                secret: secret.to_owned(),
                use_file_store: true,
            },
            &mut repository,
        )
        .unwrap();
        assert!(matches!(step, ProfileStep::WriteSecret { .. }));
        let written = store.write_secret("a").secret_ref;
        finish_login(&mut repository, "a", AuthMode::ApiKey, Ok(written)).unwrap();
        after.push(format!("{:?}", repository.list()));
    }
    assert_eq!(after[0], after[1]);
    assert!(!after[0].contains("sk-live"));
}

#[test]
fn a_command_without_a_configuration_starts_from_an_empty_one() {
    let repository = ProfileRepository::empty();
    assert_eq!(repository.config.version, 1);
    assert_eq!(repository.config.default_profile_id, None);
    assert!(repository.list().is_empty());
}
