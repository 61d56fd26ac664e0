//! The texts of the panel: the plain rendering as one text, and the lines that the drawn panel
//! is made of.
use vstd::prelude::*;
use vstd::string::*;

use crate::auth::{account_kind_text, auth_mode_text, render_account_kind, render_auth_mode};
use crate::domain::{
    first_of_kind, AccountHealth, AccountMembership, AccountMembershipView, MembershipTier,
    ProviderKind, ProviderKindView, QuotaWindow, QuotaWindowKind, QuotaWindowView, UsageFamily,
};
use crate::refresh::{RefreshStatus, RefreshedProfile, RefreshedProfileView};
use crate::refresh_cycle::{provider_text, render_provider, render_refresh_status, status_text};
use crate::text::{self, decimal, has_part, joined, lower, repeated};
use crate::tui::{DetailView, TuiModel, TuiModelView};

verus! {

/// The colour of a status.
#[derive(Debug, Clone, Copy, PartialEq, Eq, Structural)]
pub enum StatusColor {
    Green,
    Yellow,
    LightRed,
    Red,
    Cyan,
}

pub open spec fn status_color(status: RefreshStatus) -> StatusColor {
    match status {
        RefreshStatus::Healthy => StatusColor::Green,
        RefreshStatus::Stale => StatusColor::Yellow,
        RefreshStatus::AuthRequired => StatusColor::LightRed,
        RefreshStatus::RateLimited => StatusColor::LightRed,
        RefreshStatus::Error => StatusColor::Red,
        RefreshStatus::Refreshing => StatusColor::Cyan,
    }
}

pub fn render_status_color(status: &RefreshStatus) -> (r: StatusColor)
    ensures
        r == status_color(*status),
{
    match status {
        RefreshStatus::Healthy => StatusColor::Green,
        RefreshStatus::Stale => StatusColor::Yellow,
        RefreshStatus::AuthRequired => StatusColor::LightRed,
        RefreshStatus::RateLimited => StatusColor::LightRed,
        RefreshStatus::Error => StatusColor::Red,
        RefreshStatus::Refreshing => StatusColor::Cyan,
    }
}

/// The word for a health.
pub open spec fn health_text(health: AccountHealth) -> Seq<char> {
    match health {
        AccountHealth::Healthy => "healthy"@,
        AccountHealth::Stale => "stale"@,
        AccountHealth::AuthExpired => "auth_expired"@,
        AccountHealth::RateLimited => "rate_limited"@,
        AccountHealth::Degraded => "degraded"@,
        AccountHealth::Error => "error"@,
    }
}

pub fn render_health(health: &AccountHealth) -> (r: &'static str)
    ensures
        r@ == health_text(*health),
{
    match health {
        AccountHealth::Healthy => "healthy",
        AccountHealth::Stale => "stale",
        AccountHealth::AuthExpired => "auth_expired",
        AccountHealth::RateLimited => "rate_limited",
        AccountHealth::Degraded => "degraded",
        AccountHealth::Error => "error",
    }
}

/// The word for a view of the details.
pub open spec fn detail_view_text(view: DetailView) -> Seq<char> {
    match view {
        DetailView::Account => "account"@,
        DetailView::Diagnostics => "diagnostics"@,
    }
}

pub fn render_detail_view(view: DetailView) -> (r: &'static str)
    ensures
        r@ == detail_view_text(view),
{
    match view {
        DetailView::Account => "account",
        DetailView::Diagnostics => "diagnostics",
    }
}

/// The word for a usage family.
pub open spec fn usage_family_text(family: UsageFamily) -> Seq<char> {
    match family {
        UsageFamily::SubscriptionQuota => "subscription_quota"@,
        UsageFamily::Api => "api"@,
    }
}

fn render_usage_family(family: UsageFamily) -> (r: &'static str)
    ensures
        r@ == usage_family_text(family),
{
    match family {
        UsageFamily::SubscriptionQuota => "subscription_quota",
        UsageFamily::Api => "api",
    }
}

/// The text for a membership: the word for its tier, or the plan type where the tier is none of
/// the known ones.
pub open spec fn membership_text(membership: AccountMembershipView) -> Seq<char> {
    match membership.tier {
        MembershipTier::Free => "free"@,
        MembershipTier::Go => "go"@,
        MembershipTier::Plus => "plus"@,
        MembershipTier::Pro => "pro"@,
        MembershipTier::Team => "team"@,
        MembershipTier::Edu => "edu"@,
        MembershipTier::Business => "business"@,
        MembershipTier::Enterprise => "enterprise"@,
        MembershipTier::Unknown => "unknown"@,
        MembershipTier::Other => match membership.raw_plan_type {
            Some(plan) => plan,
            None => "other"@,
        },
    }
}

pub fn render_membership(membership: &AccountMembership) -> (r: String)
    ensures
        r@ == membership_text(membership@),
{
    match membership.tier {
        MembershipTier::Free => "free".to_owned(),
        MembershipTier::Go => "go".to_owned(),
        MembershipTier::Plus => "plus".to_owned(),
        MembershipTier::Pro => "pro".to_owned(),
        MembershipTier::Team => "team".to_owned(),
        MembershipTier::Edu => "edu".to_owned(),
        MembershipTier::Business => "business".to_owned(),
        MembershipTier::Enterprise => "enterprise".to_owned(),
        MembershipTier::Unknown => "unknown".to_owned(),
        MembershipTier::Other => match &membership.raw_plan_type {
            Some(plan) => plan.clone(),
            None => "other".to_owned(),
        },
    }
}

/// The text for a membership that may be missing.
pub open spec fn membership_or_none(membership: Option<AccountMembershipView>) -> Seq<char> {
    match membership {
        Some(membership) => membership_text(membership),
        None => "n/a"@,
    }
}

fn render_membership_or_none(membership: &Option<AccountMembership>) -> (r: String)
    ensures
        r@ == membership_or_none(membership.deep_view()),
{
    match membership {
        Some(membership) => render_membership(membership),
        None => "n/a".to_owned(),
    }
}

/// A length of time in its largest whole unit, from seconds to days.
pub open spec fn duration_text(seconds: nat) -> Seq<char> {
    if seconds < 60 {
        decimal(seconds) + "s"@
    } else if seconds < 3_600 {
        decimal(seconds / 60) + "m"@
    } else if seconds < 86_400 {
        decimal(seconds / 3_600) + "h"@
    } else {
        decimal(seconds / 86_400) + "d"@
    }
}

pub fn format_duration(seconds: u64) -> (r: String)
    ensures
        r@ == duration_text(seconds as nat),
{
    let (count, unit): (u64, &str) = if seconds < 60 {
        (seconds, "s")
    } else if seconds < 3_600 {
        (seconds / 60, "m")
    } else if seconds < 86_400 {
        (seconds / 3_600, "h")
    } else {
        (seconds / 86_400, "d")
    };
    let number = text::from_u64(count);
    text::concat(number.as_str(), unit)
}

/// How long ago a profile was updated; an update that lies ahead counts as one just now.
pub open spec fn age_text(now_epoch_secs: u64, last_updated_at: Option<u64>) -> Seq<char> {
    match last_updated_at {
        Some(last) => duration_text(
            if last <= now_epoch_secs {
                (now_epoch_secs - last) as nat
            } else {
                0
            },
        ),
        None => "never"@,
    }
}

pub fn render_refresh_age(now_epoch_secs: u64, last_updated_at: Option<u64>) -> (r: String)
    ensures
        r@ == age_text(now_epoch_secs, last_updated_at),
{
    match last_updated_at {
        Some(last) => format_duration(now_epoch_secs.saturating_sub(last)),
        None => "never".to_owned(),
    }
}

/// Whether the text of an error tells of another schema.
pub open spec fn tells_of_schema(error: Seq<char>) -> bool {
    let normalized = lower(error);
    ||| has_part(normalized, "schema incompatibility"@)
    ||| has_part(normalized, "incompatible schema"@)
    ||| has_part(normalized, "expected v2"@)
}

/// What is said of a profile's protocol.
pub open spec fn compatibility_text(known: RefreshedProfileView) -> Seq<char> {
    match known.profile.provider {
        ProviderKindView::CodexProtocol => match known.last_error {
            Some(error) if tells_of_schema(error) => "incompatible (schema drift)"@,
            _ => "compatible (schema v2)"@,
        },
        ProviderKindView::OpenAiApiUsage => "n/a (api usage provider)"@,
        ProviderKindView::Other(raw) => "unknown ("@ + raw + ")"@,
    }
}

pub fn render_protocol_compatibility(profile: &RefreshedProfile) -> (r: String)
    ensures
        r@ == compatibility_text(profile@),
{
    match &profile.profile.provider {
        ProviderKind::CodexProtocol => {
            let incompatible = match &profile.last_error {
                Some(error) => {
                    let normalized = text::to_ascii_lowercase(error.as_str());
                    text::contains(normalized.as_str(), "schema incompatibility") || text::contains(
                        normalized.as_str(),
                        "incompatible schema",
                    ) || text::contains(normalized.as_str(), "expected v2")
                },
                None => false,
            };
            if incompatible {
                "incompatible (schema drift)".to_owned()
            } else {
                "compatible (schema v2)".to_owned()
            }
        },
        ProviderKind::OpenAiApiUsage => "n/a (api usage provider)".to_owned(),
        ProviderKind::Other(raw) => {
            let mut r = text::concat("unknown (", raw.as_str());
            r.append(")");
            r
        },
    }
}

/// A window in short: what it is and how much of it is used.
pub open spec fn window_summary(window: QuotaWindowView) -> Seq<char> {
    (match window.kind {
        QuotaWindowKind::FiveHour => "5h"@,
        QuotaWindowKind::Weekly => "weekly"@,
        QuotaWindowKind::Unknown => window.label,
    }) + ": "@ + window.used_percent.text() + "%"@
}

pub fn render_window_summary(window: &QuotaWindow) -> (r: String)
    ensures
        r@ == window_summary(window@),
{
    let label: &str = match window.kind {
        QuotaWindowKind::FiveHour => "5h",
        QuotaWindowKind::Weekly => "weekly",
        QuotaWindowKind::Unknown => window.label.as_str(),
    };
    let percent = window.used_percent.to_text();
    let mut r = text::concat(label, ": ");
    r.append(percent.as_str());
    r.append("%");
    r
}

/// A window in full.
pub open spec fn window_detail(window: QuotaWindowView) -> Seq<char> {
    window.label + " | "@ + window.used_percent.text() + "% used | resets "@ + window.resets_at
        + " | "@ + decimal(window.window_duration_mins as nat) + " mins"@
}

pub fn render_window_detail(window: &QuotaWindow) -> (r: String)
    ensures
        r@ == window_detail(window@),
{
    let percent = window.used_percent.to_text();
    let minutes = text::from_u64(window.window_duration_mins as u64);
    let mut r = text::concat(window.label.as_str(), " | ");
    r.append(percent.as_str());
    r.append("% used | resets ");
    r.append(window.resets_at.as_str());
    r.append(" | ");
    r.append(minutes.as_str());
    r.append(" mins");
    r
}

/// The first window of a kind that a profile's snapshot has.
pub open spec fn window_of_kind(known: RefreshedProfileView, kind: QuotaWindowKind) -> Option<
    QuotaWindowView,
> {
    match known.snapshot {
        Some(windows) => first_of_kind(windows, kind),
        None => None,
    }
}

fn primary_window(profile: &RefreshedProfile) -> (r: Option<&QuotaWindow>)
    ensures
        r.deep_view() == window_of_kind(profile@, QuotaWindowKind::FiveHour),
{
    match &profile.snapshot {
        Some(snapshot) => snapshot.primary_window(),
        None => None,
    }
}

fn secondary_window(profile: &RefreshedProfile) -> (r: Option<&QuotaWindow>)
    ensures
        r.deep_view() == window_of_kind(profile@, QuotaWindowKind::Weekly),
{
    match &profile.snapshot {
        Some(snapshot) => snapshot.secondary_window(),
        None => None,
    }
}

/// A window in short, or what stands in its place.
pub open spec fn summary_or(window: Option<QuotaWindowView>, missing: Seq<char>) -> Seq<char> {
    match window {
        Some(window) => window_summary(window),
        None => missing,
    }
}

fn render_summary_or(window: Option<&QuotaWindow>, missing: &str) -> (r: String)
    ensures
        r@ == summary_or(window.deep_view(), missing@),
{
    match window {
        Some(window) => render_window_summary(window),
        None => missing.to_owned(),
    }
}

/// A window in full, or that there is none.
pub open spec fn detail_or_unavailable(window: Option<QuotaWindowView>) -> Seq<char> {
    match window {
        Some(window) => window_detail(window),
        None => "unavailable"@,
    }
}

fn render_detail_or_unavailable(window: Option<&QuotaWindow>) -> (r: String)
    ensures
        r@ == detail_or_unavailable(window.deep_view()),
{
    match window {
        Some(window) => render_window_detail(window),
        None => "unavailable".to_owned(),
    }
}

/// A text that may be missing.
pub open spec fn text_or_none(value: Option<Seq<char>>) -> Seq<char> {
    match value {
        Some(s) => s,
        None => "none"@,
    }
}

fn render_text_or_none(value: &Option<String>) -> (r: String)
    ensures
        r@ == text_or_none(value.deep_view()),
{
    match value {
        Some(s) => s.clone(),
        None => "none".to_owned(),
    }
}

fn push_line(lines: &mut Vec<String>, line: String)
    ensures
        final(lines).deep_view() == old(lines).deep_view().push(line@),
{
    let ghost before = lines.deep_view();
    lines.push(line);
    assert(lines.deep_view() =~= before.push(line@));
}

fn push_field(lines: &mut Vec<String>, name: &str, value: &str)
    ensures
        final(lines).deep_view() == old(lines).deep_view().push(name@ + value@),
{
    push_line(lines, text::concat(name, value));
}

/// The line for one account in the plain rendering.
pub open spec fn account_line(
    model: TuiModelView,
    index: int,
    known: RefreshedProfileView,
) -> Seq<char> {
    (if index == model.selected_profile {
        ">"@
    } else {
        " "@
    }) + " "@ + known.profile.display_name + " | status="@ + status_text(known.status)
        + " | provider="@ + provider_text(known.profile.provider) + " | health="@ + health_text(
        known.profile.health,
    ) + " | age="@ + age_text(model.now_epoch_secs, known.last_updated_at) + " | "@ + summary_or(
        window_of_kind(known, QuotaWindowKind::FiveHour),
        "5h: --"@,
    ) + " | "@ + summary_or(window_of_kind(known, QuotaWindowKind::Weekly), "weekly: --"@)
        + " | membership="@ + membership_or_none(known.profile.membership)
}

fn render_account_line(model: &TuiModel, index: usize, profile: &RefreshedProfile) -> (r: String)
    ensures
        r@ == account_line(model@, index as int, profile@),
{
    let marker = if index == model.selected_profile {
        ">"
    } else {
        " "
    };
    let age = render_refresh_age(model.now_epoch_secs, profile.last_updated_at);
    let five_hour = render_summary_or(primary_window(profile), "5h: --");
    let weekly = render_summary_or(secondary_window(profile), "weekly: --");
    let membership = render_membership_or_none(&profile.profile.membership);
    let mut line = text::concat(marker, " ");
    line.append(profile.profile.display_name.as_str());
    line.append(" | status=");
    line.append(render_refresh_status(&profile.status));
    line.append(" | provider=");
    line.append(render_provider(&profile.profile.provider));
    line.append(" | health=");
    line.append(render_health(&profile.profile.health));
    line.append(" | age=");
    line.append(age.as_str());
    line.append(" | ");
    line.append(five_hour.as_str());
    line.append(" | ");
    line.append(weekly.as_str());
    line.append(" | membership=");
    line.append(membership.as_str());
    line
}

/// The word for whether a profile may be refreshed by hand.
pub open spec fn manual_text(allowed: bool) -> Seq<char> {
    if allowed {
        "enabled"@
    } else {
        "disabled"@
    }
}

fn render_manual(allowed: bool) -> (r: &'static str)
    ensures
        r@ == manual_text(allowed),
{
    if allowed {
        "enabled"
    } else {
        "disabled"
    }
}

/// The fields of an account in the plain rendering, behind `lines`.
pub open spec fn with_fields(
    lines: Seq<Seq<char>>,
    model: TuiModelView,
    known: RefreshedProfileView,
) -> Seq<Seq<char>> {
    lines.push("Detail: "@ + known.profile.display_name).push(
        "  view: "@ + detail_view_text(model.detail_view),
    ).push("  account: "@ + account_kind_text(known.profile.account_kind)).push(
        "  membership: "@ + membership_or_none(known.profile.membership),
    ).push("  usage family: "@ + usage_family_text(known.usage_family)).push(
        "  provider: "@ + provider_text(known.profile.provider),
    ).push("  auth mode: "@ + auth_mode_text(known.profile.auth_mode)).push(
        "  refresh interval: "@ + (decimal(
            known.profile.refresh_policy.refresh_interval_secs as nat,
        ) + "s"@),
    ).push(
        "  manual refresh: "@ + manual_text(known.profile.refresh_policy.allow_manual_refresh),
    ).push("  status: "@ + status_text(known.status)).push(
        "  health: "@ + health_text(known.profile.health),
    ).push("  last refresh age: "@ + age_text(model.now_epoch_secs, known.last_updated_at)).push(
        "  protocol compatibility: "@ + compatibility_text(known),
    ).push("  last error: "@ + text_or_none(known.last_error))
}

fn push_fields(lines: &mut Vec<String>, model: &TuiModel, profile: &RefreshedProfile)
    ensures
        final(lines).deep_view() == with_fields(old(lines).deep_view(), model@, profile@),
{
    let membership = render_membership_or_none(&profile.profile.membership);
    let seconds = text::from_u64(profile.profile.refresh_policy.refresh_interval_secs);
    let interval = text::concat(seconds.as_str(), "s");
    let age = render_refresh_age(model.now_epoch_secs, profile.last_updated_at);
    let compatibility = render_protocol_compatibility(profile);
    let last_error = render_text_or_none(&profile.last_error);
    push_field(lines, "Detail: ", profile.profile.display_name.as_str());
    push_field(lines, "  view: ", render_detail_view(model.detail_view));
    push_field(lines, "  account: ", render_account_kind(&profile.profile.account_kind));
    push_field(lines, "  membership: ", membership.as_str());
    push_field(lines, "  usage family: ", render_usage_family(profile.usage_family));
    push_field(lines, "  provider: ", render_provider(&profile.profile.provider));
    push_field(lines, "  auth mode: ", render_auth_mode(&profile.profile.auth_mode));
    push_field(lines, "  refresh interval: ", interval.as_str());
    push_field(
        lines,
        "  manual refresh: ",
        render_manual(profile.profile.refresh_policy.allow_manual_refresh),
    );
    push_field(lines, "  status: ", render_refresh_status(&profile.status));
    push_field(lines, "  health: ", render_health(&profile.profile.health));
    push_field(lines, "  last refresh age: ", age.as_str());
    push_field(lines, "  protocol compatibility: ", compatibility.as_str());
    push_field(lines, "  last error: ", last_error.as_str());
}

/// Each of the windows in full, behind `prefix`.
pub open spec fn window_lines(windows: Seq<QuotaWindowView>, prefix: Seq<char>) -> Seq<Seq<char>> {
    windows.map_values(|window: QuotaWindowView| prefix + window_detail(window))
}

/// The end of an account's details, behind `lines`: its two windows, or the feedback of the last
/// refresh and all windows, each behind `prefix`.
pub open spec fn with_view(
    lines: Seq<Seq<char>>,
    model: TuiModelView,
    known: RefreshedProfileView,
    prefix: Seq<char>,
    missing: Seq<char>,
) -> Seq<Seq<char>> {
    match model.detail_view {
        DetailView::Account => lines.push(
            "5h summary: "@ + detail_or_unavailable(
                window_of_kind(known, QuotaWindowKind::FiveHour),
            ),
        ).push(
            "weekly summary: "@ + detail_or_unavailable(
                window_of_kind(known, QuotaWindowKind::Weekly),
            ),
        ),
        DetailView::Diagnostics => {
            let head = lines.push(
                "last refresh feedback: "@ + text_or_none(model.last_refresh_feedback),
            );
            match known.snapshot {
                Some(windows) => head + window_lines(windows, prefix),
                None => head.push(missing),
            }
        },
    }
}

fn push_view(
    lines: &mut Vec<String>,
    model: &TuiModel,
    profile: &RefreshedProfile,
    prefix: &str,
    missing: &str,
)
    ensures
        final(lines).deep_view() == with_view(
            old(lines).deep_view(),
            model@,
            profile@,
            prefix@,
            missing@,
        ),
{
    match model.detail_view {
        DetailView::Account => {
            let five_hour = render_detail_or_unavailable(primary_window(profile));
            let weekly = render_detail_or_unavailable(secondary_window(profile));
            push_field(lines, "5h summary: ", five_hour.as_str());
            push_field(lines, "weekly summary: ", weekly.as_str());
        },
        DetailView::Diagnostics => {
            let feedback = render_text_or_none(&model.last_refresh_feedback);
            push_field(lines, "last refresh feedback: ", feedback.as_str());
            match &profile.snapshot {
                Some(snapshot) => {
                    let ghost head = lines.deep_view();
                    let ghost tail = window_lines(snapshot@, prefix@);
                    let mut i: usize = 0;
                    assert(head + tail.take(0) =~= head);
                    while i < snapshot.windows.len()
                        invariant
                            i <= snapshot.windows.len(),
                            tail == window_lines(snapshot@, prefix@),
                            lines.deep_view() == head + tail.take(i as int),
                        decreases snapshot.windows.len() - i,
                    {
                        let window = &snapshot.windows[i];
                        assert(snapshot@[i as int] == window@);
                        let detail = render_window_detail(window);
                        push_field(lines, prefix, detail.as_str());
                        i = i + 1;
                        assert(head + tail.take(i as int) =~= (head + tail.take(i - 1)).push(
                            tail[i - 1],
                        ));
                    }
                    assert(tail.take(i as int) =~= tail);
                },
                None => {
                    push_line(lines, missing.to_owned());
                },
            }
        },
    }
}

/// The lines of the plain rendering before the details: the title, a rule, and each account.
pub open spec fn head_lines(model: TuiModelView, width: u16, height: u16) -> Seq<Seq<char>> {
    seq![
        model.title + " ["@ + decimal(width as nat) + "x"@ + decimal(height as nat) + "]"@,
        repeated(
            '=',
            if width < 80 {
                width as nat
            } else {
                80
            },
        ),
    ] + Seq::new(
        model.state.len(),
        |i: int| account_line(model, i, model.state[i].1),
    )
}

/// The selected account.
pub open spec fn selected(model: TuiModelView) -> Option<RefreshedProfileView> {
    if model.selected_profile < model.state.len() {
        Some(model.state[model.selected_profile as int].1)
    } else {
        None
    }
}

/// The lines of the plain rendering.
pub open spec fn rendered_lines(model: TuiModelView, width: u16, height: u16) -> Seq<Seq<char>> {
    let head = head_lines(model, width, height).push(Seq::<char>::empty());
    let body = match selected(model) {
        Some(known) => with_view(
            with_fields(head, model, known),
            model,
            known,
            "  - "@,
            "  no quota snapshot"@,
        ),
        None => head,
    };
    if model.show_help {
        body.push(Seq::<char>::empty()).push(
            "Help: j/k or arrows move | r refresh | a account view | d diagnostics view | ? help | q quit"@,
        )
    } else {
        body
    }
}

/// The panel as plain text.
pub fn render_to_string(model: &TuiModel, width: u16, height: u16) -> (r: String)
    ensures
        r@ == joined(rendered_lines(model@, width, height)),
{
    let ghost head = head_lines(model@, width, height);
    let width_text = text::from_u64(width as u64);
    let height_text = text::from_u64(height as u64);
    let mut first = text::concat(model.title.as_str(), " [");
    first.append(width_text.as_str());
    first.append("x");
    first.append(height_text.as_str());
    first.append("]");
    let rule: usize = if width < 80 {
        width as usize
    } else {
        80
    };
    let mut lines: Vec<String> = vec![first, text::repeat('=', rule)];
    assert(lines.deep_view() =~= head.take(2));
    let mut i: usize = 0;
    while i < model.state.profiles.len()
        invariant
            i <= model@.state.len(),
            model@.state == model.state.profiles@,
            head == head_lines(model@, width, height),
            lines.deep_view() == head.take(i + 2),
        decreases model@.state.len() - i,
    {
        let profile = model.state.profiles.value_at(i);
        let line = render_account_line(model, i, profile);
        push_line(&mut lines, line);
        i = i + 1;
        assert(head[i + 1] == account_line(model@, i - 1, profile@));
        assert(head.take(i + 2) =~= head.take(i + 1).push(head[i + 1]));
    }
    assert(head.take(i + 2) =~= head);
    push_line(&mut lines, String::new());
    if let Some(profile) = model.selected_profile() {
        push_fields(&mut lines, model, profile);
        push_view(&mut lines, model, profile, "  - ", "  no quota snapshot");
    }
    if model.show_help {
        push_line(&mut lines, String::new());
        push_line(
            &mut lines,
            "Help: j/k or arrows move | r refresh | a account view | d diagnostics view | ? help | q quit".to_owned(),
        );
    }
    text::join_lines(&lines)
}

/// An account as the list of the drawn panel shows it.
#[derive(Debug, Clone, PartialEq, Eq)]
pub struct AccountItem {
    pub name: String,
    pub status: String,
    pub status_color: StatusColor,
    pub health_line: String,
    pub quota_line: String,
}

/// The model of an [`AccountItem`].
#[verifier::ext_equal]
pub struct AccountItemView {
    pub name: Seq<char>,
    pub status: Seq<char>,
    pub status_color: StatusColor,
    pub health_line: Seq<char>,
    pub quota_line: Seq<char>,
}

impl DeepView for AccountItem {
    type V = AccountItemView;

    open spec fn deep_view(&self) -> AccountItemView {
        AccountItemView {
            name: self.name@,
            status: self.status@,
            status_color: self.status_color,
            health_line: self.health_line@,
            quota_line: self.quota_line@,
        }
    }
}

/// An account in the list of the drawn panel.
pub open spec fn account_item(now_epoch_secs: u64, known: RefreshedProfileView) -> AccountItemView {
    AccountItemView {
        name: known.profile.display_name,
        status: "  ["@ + status_text(known.status) + "]"@,
        status_color: status_color(known.status),
        health_line: "provider="@ + provider_text(known.profile.provider) + " | health="@
            + health_text(known.profile.health) + " | age="@ + age_text(
            now_epoch_secs,
            known.last_updated_at,
        ),
        quota_line: summary_or(window_of_kind(known, QuotaWindowKind::FiveHour), "5h: --"@) + " | "@
            + summary_or(window_of_kind(known, QuotaWindowKind::Weekly), "weekly: --"@)
            + " | membership="@ + membership_or_none(known.profile.membership),
    }
}

fn render_account_item(now_epoch_secs: u64, profile: &RefreshedProfile) -> (r: AccountItem)
    ensures
        r.deep_view() == account_item(now_epoch_secs, profile@),
{
    let age = render_refresh_age(now_epoch_secs, profile.last_updated_at);
    let weekly = render_summary_or(secondary_window(profile), "weekly: --");
    let membership = render_membership_or_none(&profile.profile.membership);
    let mut status = text::concat("  [", render_refresh_status(&profile.status));
    status.append("]");
    let mut health_line = text::concat("provider=", render_provider(&profile.profile.provider));
    health_line.append(" | health=");
    health_line.append(render_health(&profile.profile.health));
    health_line.append(" | age=");
    health_line.append(age.as_str());
    let mut quota_line = render_summary_or(primary_window(profile), "5h: --");
    quota_line.append(" | ");
    quota_line.append(weekly.as_str());
    quota_line.append(" | membership=");
    quota_line.append(membership.as_str());
    AccountItem {
        name: profile.profile.display_name.clone(),
        status,
        status_color: render_status_color(&profile.status),
        health_line,
        quota_line,
    }
}

/// The accounts of the drawn panel's list, in their order.
pub fn render_account_list(model: &TuiModel) -> (r: Vec<AccountItem>)
    ensures
        r.deep_view() == Seq::new(
            model@.state.len(),
            |i: int| account_item(model@.now_epoch_secs, model@.state[i].1),
        ),
{
    let ghost wanted = Seq::new(
        model@.state.len(),
        |i: int| account_item(model@.now_epoch_secs, model@.state[i].1),
    );
    let mut items: Vec<AccountItem> = Vec::new();
    assert(items.deep_view() =~= wanted.take(0));
    let mut i: usize = 0;
    while i < model.state.profiles.len()
        invariant
            i <= model@.state.len() == wanted.len(),
            model@.state == model.state.profiles@,
            wanted == Seq::new(
                model@.state.len(),
                |i: int| account_item(model@.now_epoch_secs, model@.state[i].1),
            ),
            items.deep_view() == wanted.take(i as int),
        decreases model@.state.len() - i,
    {
        let ghost done = items.deep_view();
        items.push(render_account_item(model.now_epoch_secs, model.state.profiles.value_at(i)));
        i = i + 1;
        assert(items.deep_view() =~= done.push(wanted[i - 1]));
        assert(wanted.take(i as int) =~= wanted.take(i - 1).push(wanted[i - 1]));
    }
    assert(wanted.take(i as int) =~= wanted);
    items
}

/// The position that is marked in the list of the drawn panel; an empty list has none.
pub fn list_selection(model: &TuiModel) -> (r: Option<usize>)
    ensures
        r == (if model@.state.len() == 0 {
            None
        } else {
            Some(model@.selected_profile)
        }),
{
    if model.state.profiles.is_empty() {
        None
    } else {
        Some(model.selected_profile)
    }
}

/// The title of the drawn panel's details.
pub fn render_detail_title(model: &TuiModel) -> (r: String)
    ensures
        r@ == "Detail ("@ + detail_view_text(model@.detail_view) + ")"@,
{
    let mut title = text::concat("Detail (", render_detail_view(model.detail_view));
    title.append(")");
    title
}

/// The fields of an account in the drawn panel; the first is its name.
pub open spec fn panel_fields(model: TuiModelView, known: RefreshedProfileView) -> Seq<Seq<char>> {
    Seq::<Seq<char>>::empty().push(known.profile.display_name).push(
        "view: "@ + detail_view_text(model.detail_view) + "   [a] account  [d] diagnostics"@,
    ).push("account kind: "@ + account_kind_text(known.profile.account_kind)).push(
        "membership: "@ + membership_or_none(known.profile.membership),
    ).push("provider: "@ + provider_text(known.profile.provider)).push(
        "auth mode: "@ + auth_mode_text(known.profile.auth_mode),
    ).push(
        "refresh interval: "@ + (decimal(
            known.profile.refresh_policy.refresh_interval_secs as nat,
        ) + "s"@),
    ).push("manual refresh: "@ + manual_text(known.profile.refresh_policy.allow_manual_refresh)).push(
        "status: "@ + status_text(known.status),
    ).push("health: "@ + health_text(known.profile.health)).push(
        "last refresh age: "@ + age_text(model.now_epoch_secs, known.last_updated_at),
    ).push("protocol compatibility: "@ + compatibility_text(known)).push(
        "last error: "@ + text_or_none(known.last_error),
    ).push(Seq::<char>::empty())
}

/// The lines of the drawn panel's details.
pub open spec fn panel_lines(model: TuiModelView) -> Seq<Seq<char>> {
    match selected(model) {
        Some(known) => with_view(
            panel_fields(model, known),
            model,
            known,
            ""@,
            "no quota snapshot"@,
        ),
        None => seq!["no profiles loaded"@],
    }
}

/// The lines of the drawn panel's details.
pub fn render_detail_panel(model: &TuiModel) -> (r: Vec<String>)
    ensures
        r.deep_view() == panel_lines(model@),
{
    let mut lines: Vec<String> = Vec::new();
    assert(lines.deep_view() =~= Seq::<Seq<char>>::empty());
    match model.selected_profile() {
        Some(profile) => {
            let membership = render_membership_or_none(&profile.profile.membership);
            let seconds = text::from_u64(profile.profile.refresh_policy.refresh_interval_secs);
            let interval = text::concat(seconds.as_str(), "s");
            let age = render_refresh_age(model.now_epoch_secs, profile.last_updated_at);
            let compatibility = render_protocol_compatibility(profile);
            let last_error = render_text_or_none(&profile.last_error);
            let mut view = text::concat("view: ", render_detail_view(model.detail_view));
            view.append("   [a] account  [d] diagnostics");
            push_line(&mut lines, profile.profile.display_name.clone());
            push_line(&mut lines, view);
            push_field(
                &mut lines,
                "account kind: ",
                render_account_kind(&profile.profile.account_kind),
            );
            push_field(&mut lines, "membership: ", membership.as_str());
            push_field(&mut lines, "provider: ", render_provider(&profile.profile.provider));
            push_field(&mut lines, "auth mode: ", render_auth_mode(&profile.profile.auth_mode));
            push_field(&mut lines, "refresh interval: ", interval.as_str());
            push_field(
                &mut lines,
                "manual refresh: ",
                render_manual(profile.profile.refresh_policy.allow_manual_refresh),
            );
            push_field(&mut lines, "status: ", render_refresh_status(&profile.status));
            push_field(&mut lines, "health: ", render_health(&profile.profile.health));
            push_field(&mut lines, "last refresh age: ", age.as_str());
            push_field(&mut lines, "protocol compatibility: ", compatibility.as_str());
            push_field(&mut lines, "last error: ", last_error.as_str());
            push_line(&mut lines, String::new());
            push_view(&mut lines, model, profile, "", "no quota snapshot");
        },
        None => {
            push_line(&mut lines, "no profiles loaded".to_owned());
        },
    }
    lines
}

/// The lines of the help overlay.
pub fn render_help_overlay() -> (r: Vec<&'static str>)
    ensures
        r.deep_view() == seq![
            "Keys"@,
            "j / ↓ : next account"@,
            "k / ↑ : previous account"@,
            "a     : account view"@,
            "d     : diagnostics view"@,
            "r     : run refresh and show feedback"@,
            "?     : toggle help"@,
            "q     : quit"@,
        ],
{
    let lines: Vec<&'static str> = vec![
        "Keys",
        "j / ↓ : next account",
        "k / ↑ : previous account",
        "a     : account view",
        "d     : diagnostics view",
        "r     : run refresh and show feedback",
        "?     : toggle help",
        "q     : quit",
    ];
    assert(lines.deep_view() =~= seq![
        "Keys"@,
        "j / ↓ : next account"@,
        "k / ↑ : previous account"@,
        "a     : account view"@,
        "d     : diagnostics view"@,
        "r     : run refresh and show feedback"@,
        "?     : toggle help"@,
        "q     : quit"@,
    ]);
    lines
}

/// A protocol that has drifted is reported as incompatible: the error that another schema version
/// leaves is always told as schema drift.
pub proof fn lemma_schema_drift_is_shown(
    known: RefreshedProfileView,
    found: Seq<char>,
)
    requires
        known.profile.provider is CodexProtocol,
    ensures
        compatibility_text(
            crate::refresh::failed(
                known,
                crate::provider_codex::CodexProviderErrorView::IncompatibleSchema {
                    expected: "v2"@,
                    found,
                },
            ),
        ) == "incompatible (schema drift)"@,
{
    let error = crate::provider_codex::CodexProviderErrorView::IncompatibleSchema {
        expected: "v2"@,
        found,
    };
    let message = error.text();
    let part = "schema incompatibility"@;
    reveal_strlit("schema incompatibility");
    reveal_strlit("schema incompatibility: expected ");
    let start = "schema incompatibility: expected "@;
    assert(message =~= start + ("v2"@ + ", got "@ + found));
    assert(lower(message).subrange(0, part.len() as int) =~= part) by {
        assert forall|i: int| 0 <= i < part.len() implies lower(message)[i] == part[i] by {
            assert(message[i] == start[i]);
            assert(start[i] == part[i]);
        }
    }
    assert(text::occurs_at(lower(message), part, 0));
}

/// Each health has its own word, and each word stands for one health: in particular an account is
/// called healthy exactly where it is.
pub proof fn lemma_health_words(health: AccountHealth, other: AccountHealth)
    ensures
        health_text(health) == "healthy"@ <==> health is Healthy,
        health_text(health) == "stale"@ <==> health is Stale,
        health_text(health) == "auth_expired"@ <==> health is AuthExpired,
        health_text(health) == "rate_limited"@ <==> health is RateLimited,
        health_text(health) == "degraded"@ <==> health is Degraded,
        health_text(health) == "error"@ <==> health is Error,
        health_text(health) == health_text(other) <==> health == other,
{
    reveal_strlit("healthy");
    reveal_strlit("stale");
    reveal_strlit("auth_expired");
    reveal_strlit("rate_limited");
    reveal_strlit("degraded");
    reveal_strlit("error");
    assert("healthy"@.len() == 7 && "stale"@.len() == 5 && "auth_expired"@.len() == 12);
    assert("rate_limited"@.len() == 12 && "degraded"@.len() == 8 && "error"@.len() == 5);
    assert("stale"@[0] == 's' && "error"@[0] == 'e');
    assert("auth_expired"@[0] == 'a' && "rate_limited"@[0] == 'r');
}

/// The words of the other fields: each value has its own.
pub proof fn lemma_field_words(view: DetailView, family: UsageFamily, allowed: bool)
    ensures
        detail_view_text(view) == "account"@ <==> view is Account,
        detail_view_text(view) == "diagnostics"@ <==> view is Diagnostics,
        usage_family_text(family) == "subscription_quota"@ <==> family is SubscriptionQuota,
        usage_family_text(family) == "api"@ <==> family is Api,
        manual_text(allowed) == "enabled"@ <==> allowed,
        manual_text(allowed) == "disabled"@ <==> !allowed,
{
    reveal_strlit("account");
    reveal_strlit("diagnostics");
    reveal_strlit("subscription_quota");
    reveal_strlit("api");
    reveal_strlit("enabled");
    reveal_strlit("disabled");
    assert("account"@.len() == 7 && "diagnostics"@.len() == 11);
    assert("subscription_quota"@.len() == 18 && "api"@.len() == 3);
    assert("enabled"@.len() == 7 && "disabled"@.len() == 8);
}

/// The colour of a status: what is well is green, what runs is cyan, what needs the user's hand or
/// patience is light red, what failed is red, what is old is yellow.
pub proof fn lemma_status_colors(status: RefreshStatus)
    ensures
        status_color(status) == StatusColor::Green <==> status is Healthy,
        status_color(status) == StatusColor::Yellow <==> status is Stale,
        status_color(status) == StatusColor::LightRed <==> (status is AuthRequired || status
            is RateLimited),
        status_color(status) == StatusColor::Red <==> status is Error,
        status_color(status) == StatusColor::Cyan <==> status is Refreshing,
{
}

/// A membership is shown by the word for its tier; one of no known tier by the plan type that
/// upstream gave; a missing one as not available.
pub proof fn lemma_membership_words(membership: AccountMembershipView)
    ensures
        membership_or_none(None) == "n/a"@,
        match membership.tier {
            MembershipTier::Free => membership_or_none(Some(membership)) == "free"@,
            MembershipTier::Go => membership_or_none(Some(membership)) == "go"@,
            MembershipTier::Plus => membership_or_none(Some(membership)) == "plus"@,
            MembershipTier::Pro => membership_or_none(Some(membership)) == "pro"@,
            MembershipTier::Team => membership_or_none(Some(membership)) == "team"@,
            MembershipTier::Edu => membership_or_none(Some(membership)) == "edu"@,
            MembershipTier::Business => membership_or_none(Some(membership)) == "business"@,
            MembershipTier::Enterprise => membership_or_none(Some(membership)) == "enterprise"@,
            MembershipTier::Unknown => membership_or_none(Some(membership)) == "unknown"@,
            MembershipTier::Other => membership_or_none(Some(membership)) == (
            match membership.raw_plan_type {
                Some(plan) => plan,
                None => "other"@,
            }),
        },
{
}

/// A length of time is told by whole units of one kind, rounded down: seconds below a minute, minutes
/// below an hour, hours below a day, then days.
pub proof fn lemma_durations(seconds: nat)
    ensures
        exists|count: nat|
            {
                ||| seconds < 60 && count == seconds && duration_text(seconds) == #[trigger] decimal(
                    count,
                ) + "s"@
                ||| 60 <= seconds < 3_600 && count * 60 <= seconds < (count + 1) * 60
                    && duration_text(seconds) == decimal(count) + "m"@
                ||| 3_600 <= seconds < 86_400 && count * 3_600 <= seconds < (count + 1) * 3_600
                    && duration_text(seconds) == decimal(count) + "h"@
                ||| 86_400 <= seconds && count * 86_400 <= seconds < (count + 1) * 86_400
                    && duration_text(seconds) == decimal(count) + "d"@
            },
{
    let count: nat = if seconds < 60 {
        seconds
    } else if seconds < 3_600 {
        seconds / 60
    } else if seconds < 86_400 {
        seconds / 3_600
    } else {
        seconds / 86_400
    };
    assert(decimal(count) == decimal(count));
}

/// The age of an account is the time since its last update, none at all where that lies ahead; one
/// that was never updated is said to be so.
pub proof fn lemma_ages(now_epoch_secs: u64, last_updated_at: Option<u64>)
    ensures
        last_updated_at is None ==> age_text(now_epoch_secs, last_updated_at) == "never"@,
        last_updated_at matches Some(last) ==> {
            &&& last <= now_epoch_secs ==> age_text(now_epoch_secs, last_updated_at)
                == duration_text((now_epoch_secs - last) as nat)
            &&& last > now_epoch_secs ==> age_text(now_epoch_secs, last_updated_at)
                == duration_text(0)
        },
{
}

/// What is said of a protocol: only the Codex protocol can be compatible or not, and it is said to be
/// incompatible exactly where the last error speaks of the schema, in any case.
pub proof fn lemma_compatibility(known: RefreshedProfileView)
    ensures
        match known.profile.provider {
            ProviderKindView::CodexProtocol => {
                let drifted = known.last_error matches Some(error) && {
                    ||| has_part(lower(error), "schema incompatibility"@)
                    ||| has_part(lower(error), "incompatible schema"@)
                    ||| has_part(lower(error), "expected v2"@)
                };
                &&& drifted ==> compatibility_text(known) == "incompatible (schema drift)"@
                &&& !drifted ==> compatibility_text(known) == "compatible (schema v2)"@
            },
            ProviderKindView::OpenAiApiUsage => compatibility_text(known)
                == "n/a (api usage provider)"@,
            ProviderKindView::Other(raw) => compatibility_text(known) == "unknown ("@ + raw + ")"@,
        },
{
}

/// A window is shown in short by what it is and how much of it is used, and in full with its label,
/// its reset time and its duration as well.
pub proof fn lemma_shown_windows(window: QuotaWindowView)
    ensures
        window.kind is FiveHour ==> window_summary(window) == "5h"@ + ": "@
            + window.used_percent.text() + "%"@,
        window.kind is Weekly ==> window_summary(window) == "weekly"@ + ": "@
            + window.used_percent.text() + "%"@,
        window.kind is Unknown ==> window_summary(window) == window.label + ": "@
            + window.used_percent.text() + "%"@,
        window_detail(window) == window.label + " | "@ + window.used_percent.text()
            + "% used | resets "@ + window.resets_at + " | "@ + decimal(
            window.window_duration_mins as nat,
        ) + " mins"@,
{
}

/// The quota of a kind that an account shows in short: the first window of that kind in its snapshot,
/// or a dash.
pub open spec fn quota_shown(known: RefreshedProfileView, kind: QuotaWindowKind, missing: Seq<char>) -> Seq<
    char,
> {
    match known.snapshot {
        Some(windows) => match first_of_kind(windows, kind) {
            Some(window) => window_summary(window),
            None => missing,
        },
        None => missing,
    }
}

/// Every account has its own line in the plain rendering, behind the title and the rule: the selected
/// one is marked; then its name, status, provider, health, age, its two quotas and its membership.
#[verifier::spinoff_prover]
pub proof fn lemma_account_lines(model: TuiModelView, width: u16, height: u16, i: int)
    requires
        0 <= i < model.state.len(),
    ensures
        ({
            let known = model.state[i].1;
            let line = rendered_lines(model, width, height)[2 + i];
            let mark = if i == model.selected_profile {
                ">"@
            } else {
                " "@
            };
            line == mark + " "@ + known.profile.display_name + " | status="@ + status_text(
                known.status,
            ) + " | provider="@ + provider_text(known.profile.provider) + " | health="@
                + health_text(known.profile.health) + " | age="@ + age_text(
                model.now_epoch_secs,
                known.last_updated_at,
            ) + " | "@ + quota_shown(known, QuotaWindowKind::FiveHour, "5h: --"@) + " | "@
                + quota_shown(known, QuotaWindowKind::Weekly, "weekly: --"@) + " | membership="@
                + membership_or_none(known.profile.membership)
        }),
{
    lemma_rendered_prefix(model, width, height);
    assert(head_lines(model, width, height)[2 + i] == account_line(model, i, model.state[i].1));
}

/// What stands before the details is the same whatever follows it.
proof fn lemma_rendered_prefix(model: TuiModelView, width: u16, height: u16)
    ensures
        ({
            let head = head_lines(model, width, height);
            let lines = rendered_lines(model, width, height);
            &&& head.len() == 2 + model.state.len()
            &&& lines.len() > head.len()
            &&& forall|j: int| 0 <= j < head.len() ==> #[trigger] lines[j] == head[j]
        }),
{
}

/// The plain rendering begins with the title and the size, and a rule no longer than 80 characters.
pub proof fn lemma_rendered_title(model: TuiModelView, width: u16, height: u16)
    ensures
        ({
            let lines = rendered_lines(model, width, height);
            &&& lines[0] == model.title + " ["@ + decimal(width as nat) + "x"@ + decimal(
                height as nat,
            ) + "]"@
            &&& lines[1].len() == (if width < 80 {
                width as nat
            } else {
                80
            })
            &&& forall|j: int| 0 <= j < lines[1].len() ==> #[trigger] lines[1][j] == '='
        }),
{
    lemma_rendered_prefix(model, width, height);
}

/// The fields of an account stand behind what was there before, each at its own place.
#[verifier::spinoff_prover]
proof fn lemma_with_fields(lines: Seq<Seq<char>>, model: TuiModelView, known: RefreshedProfileView)
    ensures
        ({
            let out = with_fields(lines, model, known);
            let at = lines.len() as int;
            let profile = known.profile;
            &&& out.len() == at + 14
            &&& out[at] == "Detail: "@ + profile.display_name
            &&& out[at + 1] == "  view: "@ + detail_view_text(model.detail_view)
            &&& out[at + 2] == "  account: "@ + account_kind_text(profile.account_kind)
            &&& out[at + 3] == "  membership: "@ + membership_or_none(profile.membership)
            &&& out[at + 4] == "  usage family: "@ + usage_family_text(known.usage_family)
            &&& out[at + 5] == "  provider: "@ + provider_text(profile.provider)
            &&& out[at + 6] == "  auth mode: "@ + auth_mode_text(profile.auth_mode)
            &&& out[at + 7] == "  refresh interval: "@ + (decimal(
                profile.refresh_policy.refresh_interval_secs as nat,
            ) + "s"@)
            &&& out[at + 8] == "  manual refresh: "@ + manual_text(
                profile.refresh_policy.allow_manual_refresh,
            )
            &&& out[at + 9] == "  status: "@ + status_text(known.status)
            &&& out[at + 10] == "  health: "@ + health_text(profile.health)
            &&& out[at + 11] == "  last refresh age: "@ + age_text(
                model.now_epoch_secs,
                known.last_updated_at,
            )
            &&& out[at + 12] == "  protocol compatibility: "@ + compatibility_text(known)
            &&& out[at + 13] == "  last error: "@ + text_or_none(known.last_error)
        }),
{
}

/// What stands before the end of the details is left as it is.
#[verifier::spinoff_prover]
proof fn lemma_with_view_keeps(
    lines: Seq<Seq<char>>,
    model: TuiModelView,
    known: RefreshedProfileView,
    prefix: Seq<char>,
    missing: Seq<char>,
    i: int,
)
    requires
        0 <= i < lines.len(),
    ensures
        with_view(lines, model, known, prefix, missing).len() >= lines.len(),
        with_view(lines, model, known, prefix, missing)[i] == lines[i],
{
}

/// The details of the plain rendering are those of the selected account, field by field; where none
/// is selected, there are no details.
#[verifier::spinoff_prover]
pub proof fn lemma_rendered_fields(model: TuiModelView, width: u16, height: u16)
    requires
        !model.show_help,
    ensures
        ({
            let lines = rendered_lines(model, width, height);
            let at = (model.state.len() + 3) as int;
            if model.selected_profile < model.state.len() {
                let known = model.state[model.selected_profile as int].1;
                let profile = known.profile;
                &&& lines[at] == "Detail: "@ + profile.display_name
                &&& lines[at + 1] == "  view: "@ + detail_view_text(model.detail_view)
                &&& lines[at + 2] == "  account: "@ + account_kind_text(profile.account_kind)
                &&& lines[at + 3] == "  membership: "@ + membership_or_none(profile.membership)
                &&& lines[at + 4] == "  usage family: "@ + usage_family_text(known.usage_family)
                &&& lines[at + 5] == "  provider: "@ + provider_text(profile.provider)
                &&& lines[at + 6] == "  auth mode: "@ + auth_mode_text(profile.auth_mode)
                &&& lines[at + 7] == "  refresh interval: "@ + (decimal(
                    profile.refresh_policy.refresh_interval_secs as nat,
                ) + "s"@)
                &&& lines[at + 8] == "  manual refresh: "@ + manual_text(
                    profile.refresh_policy.allow_manual_refresh,
                )
                &&& lines[at + 9] == "  status: "@ + status_text(known.status)
                &&& lines[at + 10] == "  health: "@ + health_text(profile.health)
                &&& lines[at + 11] == "  last refresh age: "@ + age_text(
                    model.now_epoch_secs,
                    known.last_updated_at,
                )
                &&& lines[at + 12] == "  protocol compatibility: "@ + compatibility_text(known)
                &&& known.last_error is None ==> lines[at + 13] == "  last error: "@ + "none"@
                &&& known.last_error matches Some(error) ==> lines[at + 13] == "  last error: "@
                    + error
            } else {
                lines.len() == at
            }
        }),
{
    let head = head_lines(model, width, height).push(Seq::<char>::empty());
    if model.selected_profile < model.state.len() {
        let known = model.state[model.selected_profile as int].1;
        let fields = with_fields(head, model, known);
        let at = (model.state.len() + 3) as int;
        lemma_with_fields(head, model, known);
        assert forall|k: int| 0 <= k < 14 implies #[trigger] rendered_lines(model, width, height)[at
            + k] == fields[at + k] by {
            lemma_with_view_keeps(fields, model, known, "  - "@, "  no quota snapshot"@, at + k);
        }
        let lines = rendered_lines(model, width, height);
        assert(lines[at + 0] == fields[at + 0]);
        assert(lines[at + 1] == fields[at + 1]);
        assert(lines[at + 2] == fields[at + 2]);
        assert(lines[at + 3] == fields[at + 3]);
        assert(lines[at + 4] == fields[at + 4]);
        assert(lines[at + 5] == fields[at + 5]);
        assert(lines[at + 6] == fields[at + 6]);
        assert(lines[at + 7] == fields[at + 7]);
        assert(lines[at + 8] == fields[at + 8]);
        assert(lines[at + 9] == fields[at + 9]);
        assert(lines[at + 10] == fields[at + 10]);
        assert(lines[at + 11] == fields[at + 11]);
        assert(lines[at + 12] == fields[at + 12]);
        assert(lines[at + 13] == fields[at + 13]);
    }
}

/// In the account view the details end with the two quotas of the selected account in full; one that
/// is missing is said to be unavailable.
#[verifier::spinoff_prover]
pub proof fn lemma_account_view(model: TuiModelView, width: u16, height: u16)
    requires
        model.selected_profile < model.state.len(),
        model.detail_view is Account,
        !model.show_help,
    ensures
        ({
            let lines = rendered_lines(model, width, height);
            let panel = panel_lines(model);
            let at = (model.state.len() + 17) as int;
            let known = model.state[model.selected_profile as int].1;
            let windows = match known.snapshot {
                Some(windows) => windows,
                None => Seq::empty(),
            };
            let five_hour = match first_of_kind(windows, QuotaWindowKind::FiveHour) {
                Some(window) => window_detail(window),
                None => "unavailable"@,
            };
            let weekly = match first_of_kind(windows, QuotaWindowKind::Weekly) {
                Some(window) => window_detail(window),
                None => "unavailable"@,
            };
            &&& lines.len() == at + 2
            &&& lines[at] == "5h summary: "@ + five_hour
            &&& lines[at + 1] == "weekly summary: "@ + weekly
            &&& panel.len() == 16
            &&& panel[14] == "5h summary: "@ + five_hour
            &&& panel[15] == "weekly summary: "@ + weekly
        }),
{
}

/// In the diagnostics view the details end with the feedback of the last refresh and then with every
/// window of the selected account's snapshot, in full and in their order, or with a word that there
/// is none.
#[verifier::spinoff_prover]
pub proof fn lemma_diagnostics_view(model: TuiModelView, width: u16, height: u16)
    requires
        model.selected_profile < model.state.len(),
        model.detail_view is Diagnostics,
        !model.show_help,
    ensures
        ({
            let lines = rendered_lines(model, width, height);
            let panel = panel_lines(model);
            let at = (model.state.len() + 17) as int;
            let known = model.state[model.selected_profile as int].1;
            let feedback = match model.last_refresh_feedback {
                Some(feedback) => feedback,
                None => "none"@,
            };
            &&& lines[at] == "last refresh feedback: "@ + feedback
            &&& panel[14] == "last refresh feedback: "@ + feedback
            &&& match known.snapshot {
                Some(windows) => {
                    &&& lines.len() == at + 1 + windows.len()
                    &&& panel.len() == 15 + windows.len()
                    &&& forall|k: int|
                        0 <= k < windows.len() ==> {
                            &&& lines[at + 1 + k] == "  - "@ + window_detail(#[trigger] windows[k])
                            &&& panel[15 + k] == ""@ + window_detail(windows[k])
                        }
                },
                None => {
                    &&& lines.len() == at + 2
                    &&& lines[at + 1] == "  no quota snapshot"@
                    &&& panel.len() == 16
                    &&& panel[15] == "no quota snapshot"@
                },
            }
        }),
{
}

/// The help is shown where it is asked for and only there, behind everything else, which it leaves as
/// it is.
#[verifier::spinoff_prover]
pub proof fn lemma_help_is_added(model: TuiModelView, width: u16, height: u16)
    ensures
        ({
            let plain = rendered_lines(TuiModelView { show_help: false, ..model }, width, height);
            let helped = rendered_lines(TuiModelView { show_help: true, ..model }, width, height);
            &&& helped.len() == plain.len() + 2
            &&& helped.take(plain.len() as int) == plain
            &&& helped.last()
                == "Help: j/k or arrows move | r refresh | a account view | d diagnostics view | ? help | q quit"@
        }),
{
    let plain_model = TuiModelView { show_help: false, ..model };
    let help_model = TuiModelView { show_help: true, ..model };
    assert(head_lines(plain_model, width, height) =~= head_lines(help_model, width, height));
    let plain = rendered_lines(plain_model, width, height);
    let helped = rendered_lines(help_model, width, height);
    assert(helped.take(plain.len() as int) =~= plain);
}

/// The fields of the drawn panel are those of the selected account; where none is selected, the panel
/// says so.
#[verifier::spinoff_prover]
pub proof fn lemma_panel_fields(model: TuiModelView)
    ensures
        ({
            let lines = panel_lines(model);
            if model.selected_profile < model.state.len() {
                let known = model.state[model.selected_profile as int].1;
                let profile = known.profile;
                &&& lines[0] == profile.display_name
                &&& lines[1] == "view: "@ + detail_view_text(model.detail_view)
                    + "   [a] account  [d] diagnostics"@
                &&& lines[2] == "account kind: "@ + account_kind_text(profile.account_kind)
                &&& lines[3] == "membership: "@ + membership_or_none(profile.membership)
                &&& lines[4] == "provider: "@ + provider_text(profile.provider)
                &&& lines[5] == "auth mode: "@ + auth_mode_text(profile.auth_mode)
                &&& lines[6] == "refresh interval: "@ + (decimal(
                    profile.refresh_policy.refresh_interval_secs as nat,
                ) + "s"@)
                &&& lines[7] == "manual refresh: "@ + manual_text(
                    profile.refresh_policy.allow_manual_refresh,
                )
                &&& lines[8] == "status: "@ + status_text(known.status)
                &&& lines[9] == "health: "@ + health_text(profile.health)
                &&& lines[10] == "last refresh age: "@ + age_text(
                    model.now_epoch_secs,
                    known.last_updated_at,
                )
                &&& lines[11] == "protocol compatibility: "@ + compatibility_text(known)
                &&& known.last_error is None ==> lines[12] == "last error: "@ + "none"@
                &&& known.last_error matches Some(error) ==> lines[12] == "last error: "@ + error
                &&& lines[13].len() == 0
            } else {
                lines.len() == 1 && lines[0] == "no profiles loaded"@
            }
        }),
{
}

/// An account in the list of the drawn panel shows the same as its line in the plain rendering, and
/// the colour of its status.
pub proof fn lemma_account_items(now_epoch_secs: u64, known: RefreshedProfileView)
    ensures
        ({
            let item = account_item(now_epoch_secs, known);
            &&& item.name == known.profile.display_name
            &&& item.status == "  ["@ + status_text(known.status) + "]"@
            &&& item.status_color == status_color(known.status)
            &&& item.health_line == "provider="@ + provider_text(known.profile.provider)
                + " | health="@ + health_text(known.profile.health) + " | age="@ + age_text(
                now_epoch_secs,
                known.last_updated_at,
            )
            &&& item.quota_line == quota_shown(known, QuotaWindowKind::FiveHour, "5h: --"@)
                + " | "@ + quota_shown(known, QuotaWindowKind::Weekly, "weekly: --"@)
                + " | membership="@ + membership_or_none(known.profile.membership)
        }),
{
}

proof fn lemma_part_stays(text: Seq<char>, part: Seq<char>, tail: Seq<char>)
    requires
        has_part(text, part),
    ensures
        has_part(text + tail, part),
{
    let all = text + tail;
    let k = choose|k: int| text::occurs_at(text, part, k);
    assert(all.subrange(k, k + part.len()) =~= text.subrange(k, k + part.len()));
    assert(text::occurs_at(all, part, k));
}

/// A field at the end of a text is a part of it, without the bar before it.
proof fn lemma_last_field(head: Seq<char>, barred: Seq<char>, name: Seq<char>, value: Seq<char>)
    requires
        barred == " | "@ + name,
    ensures
        has_part(head + barred + value, name + value),
{
    let all = head + barred + value;
    let part = name + value;
    let k = (head + " | "@).len() as int;
    assert(all =~= (head + " | "@) + part);
    assert(all.subrange(k, k + part.len()) =~= part);
    assert(text::occurs_at(all, part, k));
}

proof fn lemma_status_and_health_stand_in_line(
    start: Seq<char>,
    status: Seq<char>,
    provider: Seq<char>,
    health: Seq<char>,
    age: Seq<char>,
    five_hour: Seq<char>,
    weekly: Seq<char>,
    membership: Seq<char>,
)
    ensures
        ({
            let line = start + " | status="@ + status + " | provider="@ + provider + " | health="@
                + health + " | age="@ + age + " | "@ + five_hour + " | "@ + weekly
                + " | membership="@ + membership;
            &&& has_part(line, "status="@ + status)
            &&& has_part(line, "health="@ + health)
        }),
{
    reveal_strlit(" | status=");
    reveal_strlit(" | ");
    reveal_strlit("status=");
    reveal_strlit(" | health=");
    reveal_strlit("health=");
    assert(" | status="@ =~= " | "@ + "status="@);
    assert(" | health="@ =~= " | "@ + "health="@);
    let a = start + " | status="@ + status;
    lemma_last_field(start, " | status="@, "status="@, status);
    let b = a + " | provider="@ + provider;
    lemma_part_stays(a, "status="@ + status, " | provider="@);
    lemma_part_stays(a + " | provider="@, "status="@ + status, provider);
    let c = b + " | health="@ + health;
    lemma_part_stays(b, "status="@ + status, " | health="@);
    lemma_part_stays(b + " | health="@, "status="@ + status, health);
    lemma_last_field(b, " | health="@, "health="@, health);
    lemma_part_stays_to_the_end(c, "status="@ + status, age, five_hour, weekly, membership);
    lemma_part_stays_to_the_end(c, "health="@ + health, age, five_hour, weekly, membership);
}

proof fn lemma_part_stays_to_the_end(
    text: Seq<char>,
    part: Seq<char>,
    age: Seq<char>,
    five_hour: Seq<char>,
    weekly: Seq<char>,
    membership: Seq<char>,
)
    requires
        has_part(text, part),
    ensures
        has_part(
            text + " | age="@ + age + " | "@ + five_hour + " | "@ + weekly + " | membership="@
                + membership,
            part,
        ),
{
    let a = text + " | age="@;
    let b = a + age;
    let c = b + " | "@;
    let d = c + five_hour;
    let e = d + " | "@;
    let g = e + weekly;
    let h = g + " | membership="@;
    lemma_part_stays(text, part, " | age="@);
    lemma_part_stays(a, part, age);
    lemma_part_stays(b, part, " | "@);
    lemma_part_stays(c, part, five_hour);
    lemma_part_stays(d, part, " | "@);
    lemma_part_stays(e, part, weekly);
    lemma_part_stays(g, part, " | membership="@);
    lemma_part_stays(h, part, membership);
}

/// After a refresh that failed for authentication the account is shown as one whose login has
/// expired, in its line and in its details, and never as healthy.
#[verifier::spinoff_prover]
pub proof fn lemma_expired_login_is_shown(
    model: TuiModelView,
    width: u16,
    height: u16,
    i: int,
    known: RefreshedProfileView,
    message: Seq<char>,
)
    requires
        0 <= i < model.state.len(),
        model.state[i].1 == crate::refresh::failed(
            known,
            crate::provider_codex::CodexProviderErrorView::Auth(message),
        ),
    ensures
        has_part(
            rendered_lines(model, width, height)[2 + i],
            "status="@ + "auth_required"@,
        ),
        has_part(rendered_lines(model, width, height)[2 + i], "health="@ + "auth_expired"@),
        model.selected_profile == i ==> {
            &&& panel_lines(model)[8] == "status: "@ + "auth_required"@
            &&& panel_lines(model)[9] == "health: "@ + "auth_expired"@
        },
{
    let shown = model.state[i].1;
    lemma_account_lines(model, width, height, i);
    lemma_panel_fields(model);
    let mark = if i == model.selected_profile {
        ">"@
    } else {
        " "@
    };
    lemma_status_and_health_stand_in_line(
        mark + " "@ + shown.profile.display_name,
        status_text(shown.status),
        provider_text(shown.profile.provider),
        health_text(shown.profile.health),
        age_text(model.now_epoch_secs, shown.last_updated_at),
        quota_shown(shown, QuotaWindowKind::FiveHour, "5h: --"@),
        quota_shown(shown, QuotaWindowKind::Weekly, "weekly: --"@),
        membership_or_none(shown.profile.membership),
    );
}

/// So much for the words themselves: an account is called healthy exactly where it is, and one whose
/// login has expired is called so.
pub proof fn lemma_rendered_health(health: AccountHealth, r: &'static str)
    requires
        call_ensures(render_health, (&health,), r),
    ensures
        r@ == "healthy"@ <==> health is Healthy,
        r@ == "stale"@ <==> health is Stale,
        r@ == "auth_expired"@ <==> health is AuthExpired,
        r@ == "rate_limited"@ <==> health is RateLimited,
        r@ == "degraded"@ <==> health is Degraded,
        r@ == "error"@ <==> health is Error,
{
    lemma_health_words(health, health);
}

/// The list marks the selected account, and nothing where it is empty; the title of the details names
/// their view.
pub proof fn lemma_marked_account(model: TuiModel, r: Option<usize>, title: String)
    requires
        call_ensures(list_selection, (&model,), r),
        call_ensures(render_detail_title, (&model,), title),
    ensures
        r is None <==> model.state@.len() == 0,
        r matches Some(i) ==> i == model.selected_profile,
        title@ == "Detail ("@ + (if model.detail_view is Account {
            "account"@
        } else {
            "diagnostics"@
        }) + ")"@,
{
}

/// The list of the drawn panel has one item for each account, in their order, as the account is now.
pub proof fn lemma_listed_accounts(model: TuiModel, r: Vec<AccountItem>, i: int)
    requires
        call_ensures(render_account_list, (&model,), r),
        0 <= i < model.state@.len(),
    ensures
        r@.len() == model.state@.len(),
        r@[i].deep_view() == account_item(model.now_epoch_secs, model.state@[i].1),
{
    let all = r.deep_view();
    assert(all.len() == model@.state.len());
    assert(all.len() == r@.len());
    assert(all[i] == r@[i].deep_view());
    assert(all[i] == account_item(model@.now_epoch_secs, model@.state[i].1));
}

} // verus!
