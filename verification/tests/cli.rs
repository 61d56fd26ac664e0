use aistatus::cli::parse_args;
use aistatus::commands::{command_names, Command, ProfileCommandAction};

fn args(values: &[&str]) -> Vec<String> {
    values.iter().map(|value| value.to_string()).collect()
}

#[test]
fn profile_add_missing_id_falls_back_to_help() {
    assert!(matches!(
        parse_args(args(&[
            "bin",
            "profile",
            "add",
            "--name",
            "Primary",
            "--auth-mode",
            "browser",
            "--account-kind",
            "chatgpt",
            "--provider",
            "codex_protocol"
        ])),
        Command::Help
    ));
}

#[test]
fn profile_login_missing_secret_falls_back_to_help() {
    assert!(matches!(
        parse_args(args(&[
            "bin",
            "profile",
            "login",
            "--id",
            "acct-1",
            "--auth-mode",
            "browser"
        ])),
        Command::Help
    ));
}

#[test]
fn profile_remove_does_not_treat_config_path_as_id() {
    assert!(matches!(
        parse_args(args(&["bin", "profile", "remove", "--config", "/tmp/x.toml"])),
        Command::Help
    ));
}

#[test]
fn profile_logout_does_not_treat_config_path_as_id() {
    assert!(matches!(
        parse_args(args(&["bin", "profile", "logout", "--config", "/tmp/x.toml"])),
        Command::Help
    ));
}

#[test]
fn profile_set_default_does_not_treat_config_path_as_id() {
    assert!(matches!(
        parse_args(args(&[
            "bin",
            "profile",
            "set-default",
            "--config",
            "/tmp/x.toml"
        ])),
        Command::Help
    ));
}

#[test]
fn profile_remove_with_explicit_id_still_parses() {
    assert!(matches!(
        parse_args(args(&["bin", "profile", "remove", "--id", "acct-1"])),
        Command::Profile(profile) if matches!(profile.action, ProfileCommandAction::Remove { ref profile_id } if profile_id == "acct-1")
    ));
}

#[test]
fn refresh_command_parses_real_options() {
    assert!(matches!(
        parse_args(args(&[
            "bin",
            "refresh",
            "--config",
            "/tmp/sample.toml",
            "--force",
            "--now-epoch-secs",
            "1234"
        ])),
        Command::Refresh(refresh)
            if refresh.config.as_deref() == Some("/tmp/sample.toml")
                && refresh.force
                && refresh.now_epoch_secs == Some(1234)
    ));
}

#[test]
fn set_default_and_logout_take_the_id_right_behind_them() {
    let command = parse_args(args(&[
        "bin",
        "profile",
        "set-default",
        "acct-api-key",
        "--config",
        "sample-config.toml",
    ]));
    match command {
        Command::Profile(profile) => {
            assert_eq!(profile.config.as_deref(), Some("sample-config.toml"));
            assert_eq!(
                profile.action,
                ProfileCommandAction::SetDefault {
                    profile_id: "acct-api-key".to_string()
                }
            );
        }
        other => panic!("unexpected {:?}", other),
    }
    let command = parse_args(args(&[
        "bin",
        "profile",
        "logout",
        "acct-plus",
        "--config",
        "/tmp/aistatus-config.toml",
    ]));
    assert!(matches!(
        command,
        Command::Profile(profile) if profile.action == ProfileCommandAction::Logout { profile_id: "acct-plus".to_string() }
    ));
    let command = parse_args(args(&["bin", "profile", "logout", "acct-plus", "--id", "acct-1"]));
    assert!(matches!(
        command,
        Command::Profile(profile) if profile.action == ProfileCommandAction::Logout { profile_id: "acct-1".to_string() }
    ));
    assert_eq!(
        parse_args(args(&["bin", "profile", "remove", "acct-plus"])),
        Command::Help
    );
}

#[test]
fn unknown_and_missing_subcommands_ask_for_help() {
    assert_eq!(parse_args(args(&[])), Command::Help);
    assert_eq!(parse_args(args(&["bin"])), Command::Help);
    assert_eq!(parse_args(args(&["bin", "--help"])), Command::Help);
    assert_eq!(parse_args(args(&["bin", "-h"])), Command::Help);
    assert_eq!(parse_args(args(&["bin", "serve"])), Command::Help);
    assert_eq!(parse_args(args(&["bin", "profile"])), Command::Help);
    assert_eq!(parse_args(args(&["bin", "profile", "rename"])), Command::Help);
    assert_eq!(parse_args(args(&["bin", "auth", "x"])), Command::Auth);
}

#[test]
fn later_options_replace_earlier_ones() {
    match parse_args(args(&[
        "bin", "refresh", "--now-epoch-secs", "1", "noise", "--now-epoch-secs", "x", "--fixtures",
    ])) {
        Command::Refresh(refresh) => {
            assert_eq!(refresh.now_epoch_secs, None);
            assert_eq!(refresh.fixtures, None);
            assert!(!refresh.force);
        }
        other => panic!("unexpected {:?}", other),
    }
    match parse_args(args(&["bin", "doctor", "--config", "--fixtures", "--fixtures", "b"])) {
        Command::Doctor(doctor) => {
            assert_eq!(doctor.config.as_deref(), Some("--fixtures"));
            assert_eq!(doctor.fixtures.as_deref(), Some("b"));
        }
        other => panic!("unexpected {:?}", other),
    }
    match parse_args(args(&["bin", "tui", "--fixtures", "sample-quotas"])) {
        Command::Tui(tui) => assert_eq!(tui.fixtures.as_deref(), Some("sample-quotas")),
        other => panic!("unexpected {:?}", other),
    }
}

#[test]
fn profile_add_and_edit_carry_their_options() {
    match parse_args(args(&[
        "bin", "profile", "add", "--id", "a", "--name", "A", "--auth-mode", "browser",
        "--account-kind", "chatgpt", "--provider", "codex_protocol", "--membership-tier", "plus",
        "--config", "c.toml",
    ])) {
        Command::Profile(profile) => {
            assert_eq!(profile.config.as_deref(), Some("c.toml"));
            assert_eq!(
                profile.action,
                ProfileCommandAction::Add {
                    profile_id: "a".to_string(),
                    display_name: "A".to_string(),
                    auth_mode: "browser".to_string(),
                    account_kind: "chatgpt".to_string(),
                    provider: "codex_protocol".to_string(),
                    membership_tier: Some("plus".to_string()),
                    plan_type: None,
                }
            );
        }
        other => panic!("unexpected {:?}", other),
    }
    match parse_args(args(&[
        "bin", "profile", "edit", "--id", "a", "--refresh-interval-secs", "+600",
    ])) {
        Command::Profile(profile) => assert_eq!(
            profile.action,
            ProfileCommandAction::Edit {
                profile_id: "a".to_string(),
                display_name: None,
                refresh_interval_secs: Some(600),
                membership_tier: None,
                plan_type: None,
            }
        ),
        other => panic!("unexpected {:?}", other),
    }
    match parse_args(args(&[
        "bin", "profile", "login", "--file-store", "--id", "a", "--auth-mode", "api_key",
        "--secret", "sk-1",
    ])) {
        Command::Profile(profile) => assert_eq!(
            profile.action,
            ProfileCommandAction::Login {
                profile_id: "a".to_string(),
                auth_mode: "api_key".to_string(),
                secret: "sk-1".to_string(),
                use_file_store: true,
            }
        ),
        other => panic!("unexpected {:?}", other),
    }
}

#[test]
fn the_subcommands_are_named_in_order() {
    assert_eq!(command_names(), vec!["tui", "profile", "auth", "refresh", "doctor"]);
}
