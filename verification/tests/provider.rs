use aistatus::domain::{AccountKind, AccountMembership, MembershipTier, QuotaWindowKind, UsageFamily};
use aistatus::percent::UsedPercent;
use aistatus::provider_codex::{
    AccountEnvelope, CodexProtocolAdapter, CodexProviderError, ProtocolAccount,
    ProtocolErrorPayload, ProtocolRateLimitSnapshot, ProtocolWindow, RateLimitsEnvelope,
    SUPPORTED_SCHEMA_VERSION,
};
use aistatus::string_map::StringMap;

fn window(used: f64, mins: u32, resets_at: &str) -> ProtocolWindow {
    ProtocolWindow {
        used_percent: UsedPercent::from_bits(used.to_bits()),
        window_duration_mins: mins,
        resets_at: resets_at.to_owned(),
    }
}

fn account(email: &str, plan_type: Option<&str>) -> AccountEnvelope {
    AccountEnvelope {
        schema_version: Some("v2".to_owned()),
        account: Some(ProtocolAccount::Chatgpt {
            email: email.to_owned(),
            plan_type: plan_type.map(|p| p.to_owned()),
        }),
        error: None,
    }
}

fn limit(
    id: Option<&str>,
    primary: Option<ProtocolWindow>,
    secondary: Option<ProtocolWindow>,
    plan_type: Option<&str>,
) -> ProtocolRateLimitSnapshot {
    ProtocolRateLimitSnapshot {
        limit_id: id.map(|i| i.to_owned()),
        limit_name: None,
        primary,
        secondary,
        plan_type: plan_type.map(|p| p.to_owned()),
    }
}

fn limits(snapshots: Vec<ProtocolRateLimitSnapshot>) -> RateLimitsEnvelope {
    RateLimitsEnvelope {
        schema_version: Some("v2".to_owned()),
        rate_limits: Some(snapshots),
        rate_limits_by_limit_id: None,
        error: None,
    }
}

fn success_limits() -> RateLimitsEnvelope {
    limits(vec![limit(
        Some("codex"),
        Some(window(42.5, 300, "2026-04-10T05:00:00Z")),
        Some(window(15.0, 10_080, "2026-04-14T00:00:00Z")),
        Some("plus"),
    )])
}

#[test]
fn protocol_adapter_maps_success_fixture() {
    let snapshot = CodexProtocolAdapter::from_json(
        &Ok(account("acct@example.com", Some("plus"))),
        &Ok(success_limits()),
    )
    .expect("success fixture should normalize");

    assert_eq!(snapshot.identity.account_kind, AccountKind::Chatgpt);
    assert_eq!(snapshot.identity.plan_type.as_deref(), Some("plus"));
    assert_eq!(snapshot.usage_family, UsageFamily::SubscriptionQuota);
    assert_eq!(snapshot.quota_snapshot.windows.len(), 2);
    assert_eq!(
        snapshot.quota_snapshot.windows[0].kind,
        QuotaWindowKind::FiveHour
    );
    assert_eq!(
        snapshot.quota_snapshot.windows[1].kind,
        QuotaWindowKind::Weekly
    );
}

#[test]
fn protocol_adapter_flags_auth_failures() {
    let expired = AccountEnvelope {
        schema_version: Some("v2".to_owned()),
        account: None,
        error: Some(ProtocolErrorPayload {
            code: "session_expired".to_owned(),
            message: "please log in".to_owned(),
        }),
    };
    let error = CodexProtocolAdapter::from_json(&Ok(expired), &Ok(success_limits()))
        .expect_err("auth fixture should fail");

    assert!(matches!(error, CodexProviderError::Auth(_)));
    assert_eq!(error.message(), "authentication failure: please log in");
}

#[test]
fn protocol_adapter_rejects_schema_drift() {
    let mut drifted = success_limits();
    drifted.schema_version = Some("v3".to_owned());
    let error = CodexProtocolAdapter::from_json(
        &Ok(account("acct@example.com", Some("plus"))),
        &Ok(drifted),
    )
    .expect_err("schema drift fixture should fail");

    assert!(matches!(
        error,
        CodexProviderError::IncompatibleSchema { .. } | CodexProviderError::InvalidPayload(_)
    ));
    assert_eq!(
        error.message(),
        "schema incompatibility: expected v2, got v3"
    );
}

#[test]
fn protocol_adapter_uses_snapshot_plan_type_when_account_is_missing_one() {
    let snapshot = CodexProtocolAdapter::from_json(
        &Ok(account("acct@example.com", None)),
        &Ok(success_limits()),
    )
    .expect("snapshot should fallback to rate limit plan type");

    let membership = AccountMembership::from_plan_type(snapshot.identity.plan_type.as_deref())
        .expect("membership should derive from fallback plan type");
    assert_eq!(membership.tier, MembershipTier::Plus);
}

#[test]
fn failed_readings_are_invalid_payloads() {
    assert_eq!(
        CodexProtocolAdapter::from_json(&Err("eof".to_owned()), &Err("x".to_owned())),
        Err(CodexProviderError::InvalidPayload("account payload: eof".to_owned()))
    );
    let error =
        CodexProtocolAdapter::from_json(&Ok(account("a", None)), &Err("x".to_owned())).unwrap_err();
    assert_eq!(error.message(), "invalid payload: rate limit payload: x");
    let empty = AccountEnvelope {
        schema_version: None,
        account: None,
        error: None,
    };
    assert_eq!(
        CodexProtocolAdapter::from_json(&Ok(empty), &Ok(success_limits())),
        Err(CodexProviderError::InvalidPayload("missing account object".to_owned()))
    );
}

#[test]
fn the_first_schema_error_and_the_account_error_come_first() {
    let mut first = account("a", None);
    first.schema_version = Some("v1".to_owned());
    first.error = Some(ProtocolErrorPayload {
        code: "unauthorized".to_owned(),
        message: "m".to_owned(),
    });
    let mut second = success_limits();
    second.schema_version = Some("v3".to_owned());
    assert_eq!(
        CodexProtocolAdapter::from_json(&Ok(first), &Ok(second)),
        Err(CodexProviderError::IncompatibleSchema {
            expected: SUPPORTED_SCHEMA_VERSION.to_owned(),
            found: "v1".to_owned(),
        })
    );
    let mut failing = success_limits();
    failing.error = Some(ProtocolErrorPayload {
        code: "overloaded".to_owned(),
        message: "Rate Limit hit".to_owned(),
    });
    let error = CodexProtocolAdapter::from_json(&Ok(account("a", None)), &Ok(failing)).unwrap_err();
    assert_eq!(error, CodexProviderError::Transport("Rate Limit hit".to_owned()));
    assert_eq!(error.message(), "transport failure: Rate Limit hit");
}

#[test]
fn limits_of_the_map_are_added_where_the_list_lacks_them() {
    let mut by_id: StringMap<ProtocolRateLimitSnapshot> = StringMap::new();
    by_id.insert(
        "weekly".to_owned(),
        limit(Some("weekly"), Some(window(3.0, 10_080, "w")), None, Some("team")),
    );
    by_id.insert(
        "codex".to_owned(),
        limit(Some("codex"), Some(window(99.0, 1, "dropped")), None, None),
    );
    let response = RateLimitsEnvelope {
        schema_version: None,
        rate_limits: Some(vec![limit(
            Some("codex"),
            None,
            Some(window(1.0, 300, "five")),
            None,
        )]),
        rate_limits_by_limit_id: Some(by_id),
        error: None,
    };
    let snapshot =
        CodexProtocolAdapter::from_json(&Ok(account("a", None)), &Ok(response)).unwrap();
    let resets: Vec<&str> = snapshot
        .quota_snapshot
        .windows
        .iter()
        .map(|w| w.resets_at.as_str())
        .collect();
    assert_eq!(resets, vec!["five", "w"]);
    assert_eq!(snapshot.identity.plan_type.as_deref(), Some("team"));
}

#[test]
fn api_key_accounts_have_a_fixed_identity_and_unnamed_limits_an_id() {
    let api = AccountEnvelope {
        schema_version: Some("v2".to_owned()),
        account: Some(ProtocolAccount::ApiKey),
        error: None,
    };
    let snapshot = CodexProtocolAdapter::from_json(
        &Ok(api),
        &Ok(limits(vec![limit(None, Some(window(1.0, 5, "r")), None, Some("plus"))])),
    )
    .unwrap();
    assert_eq!(snapshot.identity.account_id, "api-key");
    assert_eq!(snapshot.identity.display_name, "API Key");
    assert_eq!(snapshot.identity.plan_type, None);
    assert_eq!(snapshot.quota_snapshot.windows[0].limit_id, "unknown-limit");
    assert_eq!(snapshot.quota_snapshot.windows[0].label, "5m");
}
