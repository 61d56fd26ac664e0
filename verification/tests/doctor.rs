use aistatus::auth::{AuthError, ProfileRepository};
use aistatus::commands::{Command, DoctorCommand};
use aistatus::config::{
    AuthSecret, ConfiguredProfile, PlainConfig, SecretEntry, SecretMaterial, SecretRef,
};
use aistatus::doctor::{dispatch_command, run_doctor, DoctorReport, DoctorStatus};
use aistatus::domain::{
    AccountHealth, AccountKind, AccountProfile, AuthMode, FutureSwitchBridge, ProviderKind,
    RefreshPolicy,
};
use aistatus::locations::resolve_doctor_config_path;
use aistatus::paths::FilePath;
use aistatus::store::{AppPaths, StoreError};

fn configured(id: &str, secret_ref: SecretRef) -> ConfiguredProfile {
    ConfiguredProfile {
        profile: AccountProfile {
            id: id.to_owned(),
            display_name: id.to_owned(),
            provider: ProviderKind::CodexProtocol,
            auth_mode: AuthMode::Browser,
            account_kind: AccountKind::Chatgpt,
            membership: None,
            health: AccountHealth::Healthy,
            refresh_policy: RefreshPolicy {
                refresh_interval_secs: 300,
                allow_manual_refresh: true,
            },
            future_switch_bridge: FutureSwitchBridge::default(),
        },
        secret_ref,
    }
}

fn managed() -> SecretRef {
    SecretRef::Managed { id: "m".to_owned() }
}

fn loaded(profiles: Vec<ConfiguredProfile>) -> Result<ProfileRepository, AuthError> {
    Ok(ProfileRepository {
        config: PlainConfig {
            version: 1,
            default_profile_id: None,
            profiles,
        },
    })
}

fn browser(id: &str, payload: &str) -> SecretEntry {
    SecretEntry {
        profile_id: id.to_owned(),
        secret: AuthSecret::BrowserSession {
            session_payload: payload.to_owned(),
        },
    }
}

fn material(entries: Vec<SecretEntry>) -> Result<Option<SecretMaterial>, AuthError> {
    Ok(Some(SecretMaterial { version: 1, entries }))
}

fn paths() -> Result<AppPaths, StoreError> {
    AppPaths::from_project_dirs(Some((FilePath::new("/c"), FilePath::new("/d"))))
}

fn statuses(report: &DoctorReport) -> Vec<DoctorStatus> {
    report.checks.iter().map(|check| check.status).collect()
}

#[test]
fn doctor_reports_corrupted_fixture_as_error() {
    let report = run_doctor(
        loaded(vec![configured("acct-corrupt", managed())]),
        material(vec![browser("acct-corrupt", "  ")]),
        paths(),
        &vec![],
    )
    .expect("doctor should produce report");

    assert_eq!(report.overall_status, DoctorStatus::Error);
    assert!(report
        .checks
        .iter()
        .any(|check| check.detail.contains("empty browser session payload")));
}

#[test]
fn a_healthy_configuration_is_reported_as_ok() {
    let report = run_doctor(
        loaded(vec![configured("acct-chatgpt-plus", managed()), configured("acct-api-key", managed())]),
        material(vec![
            browser("acct-chatgpt-plus", "session-cookie-value"),
            SecretEntry {
                profile_id: "acct-api-key".to_owned(),
                secret: AuthSecret::ApiKey { api_key: "sk-live-123".to_owned() },
            },
        ]),
        paths(),
        &vec![],
    )
    .unwrap();
    assert_eq!(
        report.render(),
        "overall: ok\n\
         ok: config - loaded 2 profiles\n\
         ok: secret_material - loaded 2 secret entries for 2 profiles\n\
         ok: profile:acct-chatgpt-plus - browser session payload present\n\
         ok: profile:acct-api-key - api key shape looks valid"
    );
}

#[test]
fn a_configuration_that_does_not_load_is_reported_alone() {
    let report = run_doctor(
        Err(AuthError::Io("no such file".to_owned())),
        Err(AuthError::SecretJson("never looked at".to_owned())),
        Err(StoreError::PathResolution("never looked at".to_owned())),
        &vec![],
    )
    .unwrap();
    assert_eq!(
        report.render(),
        "overall: error\nerror: config - io failure: no such file"
    );
}

#[test]
fn unreadable_material_and_missing_directories_are_errors() {
    let error = run_doctor(
        loaded(vec![]),
        Err(AuthError::SecretJson("eof".to_owned())),
        paths(),
        &vec![],
    )
    .unwrap_err();
    assert_eq!(error, AuthError::SecretJson("eof".to_owned()));
    let error = run_doctor(
        loaded(vec![]),
        Ok(None),
        AppPaths::from_project_dirs(None),
        &vec![],
    )
    .unwrap_err();
    assert_eq!(
        error.message(),
        "store failure: path resolution failed: unable to resolve project dirs"
    );
}

#[test]
fn stored_secrets_are_checked_by_what_was_read() {
    let file = || SecretRef::File { path: "/p".to_owned(), key_path: None };
    let keychain = || SecretRef::Keychain { service: "s".to_owned(), account: "a".to_owned() };
    let report = run_doctor(
        loaded(vec![
            configured("a", file()),
            configured("b", keychain()),
            configured("c", managed()),
            configured("d", keychain()),
        ]),
        Ok(None),
        paths(),
        &vec![
            Some(Ok(AuthSecret::HeadlessSession { session_payload: "x".to_owned() })),
            Some(Ok(AuthSecret::ApiKey { api_key: "key".to_owned() })),
            None,
            Some(Err(StoreError::Decryption)),
        ],
    )
    .unwrap();
    assert_eq!(
        statuses(&report),
        vec![
            DoctorStatus::Passed,
            DoctorStatus::Passed,
            DoctorStatus::Warning,
            DoctorStatus::Warning,
            DoctorStatus::Error
        ]
    );
    assert_eq!(report.checks[1].detail, "headless session payload present");
    assert_eq!(
        report.checks[2].detail,
        "api key is non-empty but missing `sk-` prefix"
    );
    assert_eq!(
        report.checks[3].detail,
        "managed secret ref `m` requires external backend"
    );
    assert_eq!(report.checks[4].detail, "decryption failure");
    assert_eq!(report.overall_status, DoctorStatus::Error);
}

#[test]
fn a_warning_is_the_worst_where_nothing_fails() {
    let report = run_doctor(loaded(vec![configured("a", managed())]), Ok(None), paths(), &vec![])
        .unwrap();
    assert_eq!(report.overall_status, DoctorStatus::Warning);
    let report = run_doctor(loaded(vec![]), Ok(None), paths(), &vec![]).unwrap();
    assert_eq!(report.overall_status, DoctorStatus::Passed);
    assert_eq!(report.render(), "overall: ok\nok: config - loaded 0 profiles");
}

#[test]
fn missing_entries_are_reported_twice() {
    let report = run_doctor(
        loaded(vec![configured("a", managed()), configured("b", managed())]),
        material(vec![browser("a", "x")]),
        paths(),
        &vec![],
    )
    .unwrap();
    assert_eq!(report.checks[1].detail, "missing secret entry for profile `b`");
    assert_eq!(report.checks[3].detail, "missing secret entry in sidecar material");
    assert_eq!(report.overall_status, DoctorStatus::Error);
}

#[test]
fn blank_secrets_of_each_kind_fail() {
    let check = |secret: AuthSecret| {
        run_doctor(
            loaded(vec![configured("a", managed())]),
            material(vec![SecretEntry { profile_id: "a".to_owned(), secret }]),
            paths(),
            &vec![],
        )
        .unwrap()
        .checks[2]
            .detail
            .clone()
    };
    assert_eq!(
        check(AuthSecret::HeadlessSession { session_payload: "\t".to_owned() }),
        "empty headless session payload"
    );
    assert_eq!(check(AuthSecret::ApiKey { api_key: " ".to_owned() }), "empty api key");
}

#[test]
fn the_doctor_looks_where_it_is_told() {
    let command = DoctorCommand {
        config: None,
        fixtures: Some("corrupted-session".to_owned()),
    };
    assert_eq!(
        resolve_doctor_config_path(&command, &Some(FilePath::new("/f"))).unwrap(),
        FilePath::new("/f/config.toml")
    );
    let command = DoctorCommand {
        config: Some("/x.toml".to_owned()),
        fixtures: None,
    };
    assert_eq!(
        resolve_doctor_config_path(&command, &Some(FilePath::new("/f"))).unwrap(),
        FilePath::new("/x.toml")
    );
    let command = Command::Doctor(command);
    assert_eq!(dispatch_command(&command).unwrap().config.as_deref(), Some("/x.toml"));
    assert!(dispatch_command(&Command::Auth).is_none());
}
