use aistatus::domain::{
    AccountHealth, AccountKind, AccountMembership, AccountProfile, AuthMode, FutureSwitchBridge,
    MembershipTier, ProtocolAccountIdentity, ProtocolRateLimitWindow, ProviderKind, QuotaSeverity,
    QuotaSnapshot, QuotaWindowKind, RefreshPolicy, UsageFamily,
};
use aistatus::percent::UsedPercent;
use aistatus::provider_openai_api::OpenAiApiUsageProvider;

fn percent(value: f64) -> UsedPercent {
    UsedPercent::from_bits(value.to_bits())
}

fn window(
    limit_id: &str,
    label: Option<&str>,
    used: f64,
    mins: u32,
    resets_at: &str,
) -> ProtocolRateLimitWindow {
    ProtocolRateLimitWindow {
        limit_id: limit_id.to_owned(),
        label: label.map(|l| l.to_owned()),
        used_percent: percent(used),
        window_duration_mins: mins,
        resets_at: resets_at.to_owned(),
    }
}

fn default_refresh_policy() -> RefreshPolicy {
    RefreshPolicy {
        refresh_interval_secs: 300,
        allow_manual_refresh: true,
    }
}

#[test]
fn quota_domain_mixed_windows_normalize_primary_and_secondary() {
    let snapshot = QuotaSnapshot::from_protocol_windows(vec![
        window("codex-weekly", None, 15.0, 10_080, "2026-04-14T00:00:00Z"),
        window("codex-5h", None, 42.5, 300, "2026-04-10T05:00:00Z"),
    ]);

    assert_eq!(snapshot.windows.len(), 2);
    assert_eq!(
        snapshot.primary_window().map(|window| &window.label),
        Some(&"5h".to_owned())
    );
    assert_eq!(
        snapshot.secondary_window().map(|window| &window.label),
        Some(&"Weekly".to_owned())
    );

    let primary = snapshot.primary_window().expect("5h window should exist");
    assert_eq!(primary.limit_id, "codex-5h");
    assert_eq!(primary.used_percent, percent(42.5));
    assert_eq!(primary.window_duration_mins, 300);
    assert_eq!(primary.resets_at, "2026-04-10T05:00:00Z");
    assert_eq!(primary.severity, QuotaSeverity::Normal);

    let secondary = snapshot
        .secondary_window()
        .expect("weekly window should exist");
    assert_eq!(secondary.limit_id, "codex-weekly");
    assert_eq!(secondary.used_percent, percent(15.0));
    assert_eq!(secondary.window_duration_mins, 10_080);
    assert_eq!(secondary.resets_at, "2026-04-14T00:00:00Z");
}

#[test]
fn quota_domain_unknown_window_preserves_raw_display_data() {
    let snapshot = QuotaSnapshot::from_protocol_windows(vec![window(
        "mystery-12h-limit",
        Some("12h experimental"),
        51.0,
        720,
        "2026-04-10T12:00:00Z",
    )]);
    let window = snapshot
        .windows
        .first()
        .expect("unknown window should exist");

    assert_eq!(window.kind, QuotaWindowKind::Unknown);
    assert_eq!(window.limit_id, "mystery-12h-limit");
    assert_eq!(window.window_duration_mins, 720);
    assert_eq!(window.label, "12h experimental");
    assert_eq!(snapshot.primary_window(), None);
    assert_eq!(snapshot.secondary_window(), None);
}

fn identity(kind: AccountKind, plan_type: Option<&str>) -> ProtocolAccountIdentity {
    ProtocolAccountIdentity {
        account_id: "acct".to_owned(),
        display_name: "acct@example.com".to_owned(),
        account_kind: kind,
        plan_type: plan_type.map(|p| p.to_owned()),
    }
}

#[test]
fn quota_domain_chatgpt_account_uses_known_plan_type() {
    let profile = AccountProfile::from_protocol_identity(
        identity(AccountKind::Chatgpt, Some("plus")),
        ProviderKind::CodexProtocol,
        AuthMode::Browser,
        AccountHealth::Healthy,
        default_refresh_policy(),
        FutureSwitchBridge::default(),
    );

    assert_eq!(profile.account_kind, AccountKind::Chatgpt);
    assert_eq!(
        profile.membership,
        Some(AccountMembership {
            tier: MembershipTier::Plus,
            raw_plan_type: Some("plus".to_owned()),
        })
    );
}

#[test]
fn quota_domain_api_key_account_has_no_chatgpt_membership() {
    let profile = AccountProfile::from_protocol_identity(
        identity(AccountKind::ApiKey, Some("plus")),
        ProviderKind::CodexProtocol,
        AuthMode::ApiKey,
        AccountHealth::Healthy,
        default_refresh_policy(),
        FutureSwitchBridge::default(),
    );

    assert_eq!(profile.account_kind, AccountKind::ApiKey);
    assert_eq!(profile.membership, None);
}

#[test]
fn quota_domain_unknown_plan_type_keeps_raw_value() {
    let profile = AccountProfile::from_protocol_identity(
        identity(AccountKind::Chatgpt, Some("galaxy")),
        ProviderKind::CodexProtocol,
        AuthMode::Headless,
        AccountHealth::Stale,
        default_refresh_policy(),
        FutureSwitchBridge::default(),
    );

    assert_eq!(profile.account_kind, AccountKind::Chatgpt);
    assert_eq!(
        profile.membership,
        Some(AccountMembership {
            tier: MembershipTier::Other,
            raw_plan_type: Some("galaxy".to_owned()),
        })
    );
}

#[test]
fn quota_domain_unknown_literal_plan_type_maps_to_unknown_tier() {
    let membership = AccountMembership::from_plan_type(Some("unknown"));

    assert_eq!(
        membership,
        Some(AccountMembership {
            tier: MembershipTier::Unknown,
            raw_plan_type: Some("unknown".to_owned()),
        })
    );
}

#[test]
fn quota_domain_usage_based_plan_types_map_to_stable_business_buckets() {
    assert_eq!(
        AccountMembership::from_plan_type(Some("self_serve_business_usage_based")),
        Some(AccountMembership {
            tier: MembershipTier::Business,
            raw_plan_type: Some("self_serve_business_usage_based".to_owned()),
        })
    );

    assert_eq!(
        AccountMembership::from_plan_type(Some("enterprise_cbp_usage_based")),
        Some(AccountMembership {
            tier: MembershipTier::Enterprise,
            raw_plan_type: Some("enterprise_cbp_usage_based".to_owned()),
        })
    );
}

#[test]
fn plan_types_are_read_in_any_case_and_without_white_space() {
    let tier = |plan: &str| AccountMembership::from_plan_type(Some(plan)).map(|m| m.tier);
    assert_eq!(tier("  PLUS\u{a0}\n"), Some(MembershipTier::Plus));
    assert_eq!(tier("Free"), Some(MembershipTier::Free));
    assert_eq!(tier("go"), Some(MembershipTier::Go));
    assert_eq!(tier("pro"), Some(MembershipTier::Pro));
    assert_eq!(tier("team"), Some(MembershipTier::Team));
    assert_eq!(tier("edu"), Some(MembershipTier::Edu));
    assert_eq!(tier("business_plus"), Some(MembershipTier::Business));
    assert_eq!(tier("business_pro"), Some(MembershipTier::Business));
    assert_eq!(tier("enterprise_standard"), Some(MembershipTier::Enterprise));
    assert_eq!(tier("enterprise_plus"), Some(MembershipTier::Enterprise));
    assert_eq!(tier("enterprise_pro"), Some(MembershipTier::Enterprise));
    assert_eq!(tier(" \t"), None);
    assert_eq!(AccountMembership::from_plan_type(None), None);
    assert_eq!(
        AccountMembership::from_plan_type(Some(" Plus ")).and_then(|m| m.raw_plan_type),
        Some("Plus".to_owned())
    );
}

#[test]
fn severity_follows_the_thresholds() {
    let severity = |value: f64| QuotaSeverity::from_used_percent(percent(value));
    assert_eq!(severity(74.999), QuotaSeverity::Normal);
    assert_eq!(severity(75.0), QuotaSeverity::Warning);
    assert_eq!(severity(89.999), QuotaSeverity::Warning);
    assert_eq!(severity(90.0), QuotaSeverity::Critical);
    assert_eq!(severity(99.999), QuotaSeverity::Critical);
    assert_eq!(severity(100.0), QuotaSeverity::Exhausted);
    assert_eq!(severity(f64::INFINITY), QuotaSeverity::Exhausted);
    assert_eq!(severity(f64::NAN), QuotaSeverity::Normal);
    assert_eq!(severity(-200.0), QuotaSeverity::Normal);
    assert_eq!(severity(f64::NEG_INFINITY), QuotaSeverity::Normal);
}

#[test]
fn windows_are_ordered_by_kind_duration_and_label_and_keep_ties_in_place() {
    let snapshot = QuotaSnapshot::from_protocol_windows(vec![
        window("b", Some("B"), 1.0, 60, "1"),
        window("weekly", Some("W"), 2.0, 1, "2"),
        window("a", Some("A"), 3.0, 60, "3"),
        window("x", None, 4.0, 30, "4"),
        window("a", Some("A"), 5.0, 60, "5"),
        window("FIVE_HOUR", None, 6.0, 7, "6"),
    ]);
    let order: Vec<&str> = snapshot.windows.iter().map(|w| w.resets_at.as_str()).collect();
    assert_eq!(order, vec!["6", "2", "4", "3", "5", "1"]);
    assert_eq!(snapshot.windows[2].label, "30m");
    assert_eq!(snapshot.windows[0].label, "5h");
}

#[test]
fn window_kinds_are_read_from_duration_and_id() {
    let kind = |id: &str, mins: u32| {
        QuotaSnapshot::from_protocol_windows(vec![window(id, None, 0.0, mins, "")]).windows[0].kind
    };
    assert_eq!(kind("any", 300), QuotaWindowKind::FiveHour);
    assert_eq!(kind("codex-5HR", 1), QuotaWindowKind::FiveHour);
    assert_eq!(kind("codex_5_h", 1), QuotaWindowKind::FiveHour);
    assert_eq!(kind("any", 10_080), QuotaWindowKind::Weekly);
    assert_eq!(kind("Per-WEEK", 1), QuotaWindowKind::Weekly);
    assert_eq!(kind("weekly", 300), QuotaWindowKind::FiveHour);
    assert_eq!(kind("", 0), QuotaWindowKind::Unknown);
}

#[test]
fn openai_api_provider_reports_api_usage_family() {
    let provider = OpenAiApiUsageProvider;
    assert_eq!(provider.usage_family(), UsageFamily::Api);
    assert_eq!(provider.provider_name(), "openai_api_usage");
}

#[test]
fn percentages_are_written_as_doubles_are() {
    let values = [
        0.0, -0.0, 42.5, 15.0, 0.05, 0.15, 0.25, 0.35, 99.95, 99.949999, 1e-320, 1e21, -3.25, 1e300,
        f64::MAX, f64::MIN_POSITIVE, 4503599627370496.5, 0.1, 2.5, 123456.789,
    ];
    for value in values {
        assert_eq!(percent(value).to_text(), format!("{:.1}", value));
    }
    assert_eq!(percent(f64::NAN).to_text(), "NaN");
    assert_eq!(percent(f64::INFINITY).to_text(), "inf");
    assert_eq!(percent(f64::NEG_INFINITY).to_text(), "-inf");
    let mut bits: u64 = 0x0123_4567_89ab_cdef;
    for _ in 0..300 {
        bits = bits.wrapping_mul(6364136223846793005).wrapping_add(1442695040888963407);
        let value = f64::from_bits(bits);
        if value.is_finite() {
            assert_eq!(percent(value).to_text(), format!("{:.1}", value));
        }
        assert_eq!(
            QuotaSeverity::from_used_percent(percent(value)) == QuotaSeverity::Exhausted,
            value >= 100.0
        );
    }
}

#[test]
fn percentages_are_equal_as_doubles_are() {
    let values = [0.0, -0.0, 1.5, -1.5, f64::NAN, f64::INFINITY, f64::NEG_INFINITY];
    for a in values {
        for b in values {
            assert_eq!(percent(a) == percent(b), a == b);
        }
    }
}
