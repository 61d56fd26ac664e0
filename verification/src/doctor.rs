//! The doctor: checks of the configuration, the secret material and each profile's secret.
use vstd::prelude::*;
use vstd::string::*;

use crate::auth::{AuthError, AuthErrorView, ProfileRepository};
use crate::commands::{Command, CommandView, DoctorCommand};
use crate::config::{
    entry_of, AuthSecret, AuthSecretView, ConfiguredProfile, ConfiguredProfileView, PlainConfig,
    PlainConfigView, SecretEntryView, SecretMaterial, SecretMaterialView, SecretRef, SecretRefView,
};
use crate::store::{AppPaths, StoreError, StoreErrorView};
use crate::text::{self, decimal, joined, trimmed};

verus! {

#[derive(Debug, Clone, Copy, PartialEq, Eq, Structural)]
pub enum DoctorStatus {
    Passed,
    Warning,
    Error,
}

/// One thing that was looked at, and what came of it.
#[derive(Debug, Clone, PartialEq, Eq)]
pub struct DoctorCheck {
    pub name: String,
    pub status: DoctorStatus,
    pub detail: String,
}

/// The model of a [`DoctorCheck`].
#[verifier::ext_equal]
pub struct DoctorCheckView {
    pub name: Seq<char>,
    pub status: DoctorStatus,
    pub detail: Seq<char>,
}

impl View for DoctorCheck {
    type V = DoctorCheckView;

    open spec fn view(&self) -> DoctorCheckView {
        DoctorCheckView { name: self.name@, status: self.status, detail: self.detail@ }
    }
}

impl DeepView for DoctorCheck {
    type V = DoctorCheckView;

    open spec fn deep_view(&self) -> DoctorCheckView {
        self@
    }
}

/// All checks, and the worst status among them.
#[derive(Debug, Clone, PartialEq, Eq)]
pub struct DoctorReport {
    pub overall_status: DoctorStatus,
    pub checks: Vec<DoctorCheck>,
}

/// The model of a [`DoctorReport`].
#[verifier::ext_equal]
pub struct DoctorReportView {
    pub overall_status: DoctorStatus,
    pub checks: Seq<DoctorCheckView>,
}

impl View for DoctorReport {
    type V = DoctorReportView;

    open spec fn view(&self) -> DoctorReportView {
        DoctorReportView { overall_status: self.overall_status, checks: self.checks.deep_view() }
    }
}

/// The word for a status.
pub open spec fn status_text(status: DoctorStatus) -> Seq<char> {
    match status {
        DoctorStatus::Passed => "ok"@,
        DoctorStatus::Warning => "warning"@,
        DoctorStatus::Error => "error"@,
    }
}

fn render_status(status: DoctorStatus) -> (r: &'static str)
    ensures
        r@ == status_text(status),
{
    match status {
        DoctorStatus::Passed => "ok",
        DoctorStatus::Warning => "warning",
        DoctorStatus::Error => "error",
    }
}

/// The line for a check.
pub open spec fn check_line(check: DoctorCheckView) -> Seq<char> {
    status_text(check.status) + ": "@ + check.name + " - "@ + check.detail
}

/// The lines of a report: the overall status, then each check.
pub open spec fn report_lines(report: DoctorReportView) -> Seq<Seq<char>> {
    seq!["overall: "@ + status_text(report.overall_status)] + report.checks.map_values(
        |check: DoctorCheckView| check_line(check),
    )
}

impl DoctorReport {
    pub fn render(&self) -> (r: String)
        ensures
            r@ == joined(report_lines(self@)),
    {
        let ghost wanted = report_lines(self@);
        let mut lines: Vec<String> = vec![text::concat("overall: ", render_status(self.overall_status))];
        assert(lines.deep_view() =~= wanted.take(1));
        let mut i: usize = 0;
        while i < self.checks.len()
            invariant
                i <= self.checks.len(),
                wanted == report_lines(self@),
                lines.deep_view() == wanted.take(i + 1),
            decreases self.checks.len() - i,
        {
            let ghost done = lines.deep_view();
            let check = &self.checks[i];
            assert(self@.checks[i as int] == check@);
            let mut line = text::concat(render_status(check.status), ": ");
            line.append(check.name.as_str());
            line.append(" - ");
            line.append(check.detail.as_str());
            lines.push(line);
            i = i + 1;
            assert(wanted[i as int] == check_line(check@));
            assert(lines.deep_view() =~= done.push(wanted[i as int]));
            assert(wanted.take(i + 1) =~= wanted.take(i as int).push(wanted[i as int]));
        }
        assert(wanted.take(i + 1) =~= wanted);
        text::join_lines(&lines)
    }
}

/// The worst status of the checks; no check at all is well.
pub open spec fn worst(checks: Seq<DoctorCheckView>) -> DoctorStatus {
    if exists|i: int| 0 <= i < checks.len() && (#[trigger] checks[i]).status is Error {
        DoctorStatus::Error
    } else if exists|i: int| 0 <= i < checks.len() && (#[trigger] checks[i]).status is Warning {
        DoctorStatus::Warning
    } else {
        DoctorStatus::Passed
    }
}

fn overall_status(checks: &Vec<DoctorCheck>) -> (r: DoctorStatus)
    ensures
        r == worst(checks.deep_view()),
{
    let ghost all = checks.deep_view();
    let mut status = DoctorStatus::Passed;
    let mut i: usize = 0;
    while i < checks.len()
        invariant
            i <= checks.len(),
            all == checks.deep_view(),
            status is Error <==> exists|j: int| 0 <= j < i && (#[trigger] all[j]).status is Error,
            status is Passed <==> forall|j: int| 0 <= j < i ==> (#[trigger] all[j]).status is Passed,
        decreases checks.len() - i,
    {
        assert(all[i as int] == checks@[i as int]@);
        let ghost before = status;
        status = match (status, checks[i].status) {
            (_, DoctorStatus::Error) => DoctorStatus::Error,
            (DoctorStatus::Passed, DoctorStatus::Warning) => DoctorStatus::Warning,
            (status, _) => status,
        };
        proof {
            if before is Error {
                let k = choose|j: int| 0 <= j < i && (#[trigger] all[j]).status is Error;
                assert(0 <= k < i + 1 && all[k].status is Error);
            }
        }
        i = i + 1;
    }
    status
}

/// The detail of a payload that is blank or not, and its status.
pub open spec fn payload_check(payload: Seq<char>, blank: Seq<char>, present: Seq<char>) -> (
    DoctorStatus,
    Seq<char>,
) {
    if trimmed(payload).len() == 0 {
        (DoctorStatus::Error, blank)
    } else {
        (DoctorStatus::Passed, present)
    }
}

/// The status of a secret and what is said of it.
pub open spec fn secret_status(secret: AuthSecretView) -> (DoctorStatus, Seq<char>) {
    match secret {
        AuthSecretView::BrowserSession { session_payload } => payload_check(
            session_payload,
            "empty browser session payload"@,
            "browser session payload present"@,
        ),
        AuthSecretView::HeadlessSession { session_payload } => payload_check(
            session_payload,
            "empty headless session payload"@,
            "headless session payload present"@,
        ),
        AuthSecretView::ApiKey { api_key } => if trimmed(api_key).len() == 0 {
            (DoctorStatus::Error, "empty api key"@)
        } else if "sk-"@.is_prefix_of(api_key) {
            (DoctorStatus::Passed, "api key shape looks valid"@)
        } else {
            (DoctorStatus::Warning, "api key is non-empty but missing `sk-` prefix"@)
        },
    }
}

/// The check of a profile.
pub open spec fn named_check(
    profile_id: Seq<char>,
    status: DoctorStatus,
    detail: Seq<char>,
) -> DoctorCheckView {
    DoctorCheckView { name: "profile:"@ + profile_id, status, detail }
}

fn profile_check(profile_id: &str, status: DoctorStatus, detail: String) -> (r: DoctorCheck)
    ensures
        r@ == named_check(profile_id@, status, detail@),
{
    DoctorCheck { name: text::concat("profile:", profile_id), status, detail }
}

fn is_blank(payload: &str) -> (r: bool)
    ensures
        r == (trimmed(payload@).len() == 0),
{
    text::trim(payload).unicode_len() == 0
}

/// Checks the shape of a profile's secret.
pub fn validate_secret_entry(profile_id: &str, secret: &AuthSecret) -> (r: DoctorCheck)
    ensures
        r@ == named_check(profile_id@, secret_status(secret@).0, secret_status(secret@).1),
{
    let (status, detail) = match secret {
        AuthSecret::BrowserSession { session_payload } => if is_blank(session_payload.as_str()) {
            (DoctorStatus::Error, "empty browser session payload")
        } else {
            (DoctorStatus::Passed, "browser session payload present")
        },
        AuthSecret::HeadlessSession { session_payload } => if is_blank(session_payload.as_str()) {
            (DoctorStatus::Error, "empty headless session payload")
        } else {
            (DoctorStatus::Passed, "headless session payload present")
        },
        AuthSecret::ApiKey { api_key } => if is_blank(api_key.as_str()) {
            (DoctorStatus::Error, "empty api key")
        } else if text::starts_with(api_key.as_str(), "sk-") {
            (DoctorStatus::Passed, "api key shape looks valid")
        } else {
            (DoctorStatus::Warning, "api key is non-empty but missing `sk-` prefix")
        },
    };
    profile_check(profile_id, status, detail.to_owned())
}

/// The id of the first profile that has no entry.
pub open spec fn first_without_entry(
    profiles: Seq<ConfiguredProfileView>,
    entries: Seq<SecretEntryView>,
) -> Option<Seq<char>>
    decreases profiles.len(),
{
    if profiles.len() == 0 {
        None
    } else if entry_of(entries, profiles[0].profile.id) is None {
        Some(profiles[0].profile.id)
    } else {
        first_without_entry(profiles.drop_first(), entries)
    }
}

/// What is said of complete secret material.
pub open spec fn material_detail(entries: nat, profiles: nat) -> Seq<char> {
    "loaded "@ + decimal(entries) + " secret entries for "@ + decimal(profiles) + " profiles"@
}

/// Checks that the secret material has an entry for every profile.
pub fn validate_secret_material(config: &PlainConfig, secret_material: &SecretMaterial) -> (r:
    Result<String, StoreError>)
    ensures
        match first_without_entry(config@.profiles, secret_material@.entries) {
            Some(id) => r matches Err(error) && error@ == StoreErrorView::MissingSecret(id),
            None => r matches Ok(detail) && detail@ == material_detail(
                secret_material@.entries.len(),
                config@.profiles.len(),
            ),
        },
{
    let ghost all = config@.profiles;
    let ghost entries = secret_material@.entries;
    let mut i: usize = 0;
    assert(all.skip(0) =~= all);
    while i < config.profiles.len()
        invariant
            i <= config.profiles.len(),
            all == config@.profiles,
            entries == secret_material@.entries,
            first_without_entry(all, entries) == first_without_entry(all.skip(i as int), entries),
        decreases config.profiles.len() - i,
    {
        let profile = &config.profiles[i];
        assert(all.skip(i as int)[0] == profile@);
        if secret_material.find(profile.profile.id.as_str()).is_none() {
            return Err(StoreError::MissingSecret(profile.profile.id.clone()));
        }
        i = i + 1;
        assert(all.skip(i - 1).drop_first() =~= all.skip(i as int));
    }
    let entry_count = text::from_u64(secret_material.entries.len() as u64);
    let profile_count = text::from_u64(config.profiles.len() as u64);
    let mut detail = text::concat("loaded ", entry_count.as_str());
    detail.append(" secret entries for ");
    detail.append(profile_count.as_str());
    detail.append(" profiles");
    Ok(detail)
}

/// Whether a profile's check needs the secret that its reference points to: there is no secret
/// material, and a store keeps the secret.
pub open spec fn needs_read(
    configured: ConfiguredProfileView,
    material: Option<SecretMaterialView>,
) -> bool {
    material is None && !(configured.secret_ref is Managed)
}

/// The check of a profile's secret: by the secret material where there is some, else by what
/// reading its store gave.
pub open spec fn secret_check(
    configured: ConfiguredProfileView,
    material: Option<SecretMaterialView>,
    read: Option<Result<AuthSecret, StoreError>>,
) -> DoctorCheckView {
    let id = configured.profile.id;
    match material {
        Some(material) => match entry_of(material.entries, id) {
            Some(secret) => named_check(id, secret_status(secret).0, secret_status(secret).1),
            None => named_check(
                id,
                DoctorStatus::Error,
                "missing secret entry in sidecar material"@,
            ),
        },
        None => match (configured.secret_ref, read.unwrap()) {
            (SecretRefView::Managed { id: managed }, _) => named_check(
                id,
                DoctorStatus::Warning,
                "managed secret ref `"@ + managed + "` requires external backend"@,
            ),
            (_, Ok(secret)) => named_check(id, secret_status(secret@).0, secret_status(secret@).1),
            (_, Err(error)) => named_check(id, DoctorStatus::Error, error@.text()),
        },
    }
}

/// Checks a profile's secret.
pub fn validate_profile_secret(
    configured: &ConfiguredProfile,
    secret_material: Option<&SecretMaterial>,
    read: &Option<Result<AuthSecret, StoreError>>,
) -> (r: DoctorCheck)
    requires
        needs_read(configured@, secret_material.deep_view()) ==> read is Some,
    ensures
        r@ == secret_check(configured@, secret_material.deep_view(), *read),
{
    let id = configured.profile.id.as_str();
    if let Some(material) = secret_material {
        return match material.find(id) {
            Some(secret) => validate_secret_entry(id, secret),
            None => profile_check(
                id,
                DoctorStatus::Error,
                "missing secret entry in sidecar material".to_owned(),
            ),
        };
    }
    if let SecretRef::Managed { id: managed } = &configured.secret_ref {
        let mut detail = text::concat("managed secret ref `", managed.as_str());
        detail.append("` requires external backend");
        return profile_check(id, DoctorStatus::Warning, detail);
    }
    match read {
        Some(Ok(secret)) => validate_secret_entry(id, secret),
        Some(Err(error)) => profile_check(id, DoctorStatus::Error, error.message()),
        None => {
            assert(false);
            profile_check(id, DoctorStatus::Error, String::new())
        },
    }
}

/// The outcome of reading profile `i`'s secret.
pub open spec fn read_at(reads: Seq<Option<Result<AuthSecret, StoreError>>>, i: int) -> Option<
    Result<AuthSecret, StoreError>,
> {
    if i < reads.len() {
        reads[i]
    } else {
        None
    }
}

/// Whether every secret that the checks need has been read.
pub open spec fn reads_suffice(
    config: PlainConfigView,
    material: Option<SecretMaterialView>,
    reads: Seq<Option<Result<AuthSecret, StoreError>>>,
) -> bool {
    forall|i: int|
        0 <= i < config.profiles.len() && needs_read(#[trigger] config.profiles[i], material)
            ==> read_at(reads, i) is Some
}

/// The check of a configuration that was loaded.
pub open spec fn loaded_check(config: PlainConfigView) -> DoctorCheckView {
    DoctorCheckView {
        name: "config"@,
        status: DoctorStatus::Passed,
        detail: "loaded "@ + decimal(config.profiles.len()) + " profiles"@,
    }
}

/// The check of the secret material against the configuration.
pub open spec fn material_check(
    config: PlainConfigView,
    material: SecretMaterialView,
) -> DoctorCheckView {
    match first_without_entry(config.profiles, material.entries) {
        Some(id) => DoctorCheckView {
            name: "secret_material"@,
            status: DoctorStatus::Error,
            detail: StoreErrorView::MissingSecret(id).text(),
        },
        None => DoctorCheckView {
            name: "secret_material"@,
            status: DoctorStatus::Passed,
            detail: material_detail(material.entries.len(), config.profiles.len()),
        },
    }
}

/// All checks of a configuration that was loaded.
pub open spec fn checks_of(
    config: PlainConfigView,
    material: Option<SecretMaterialView>,
    reads: Seq<Option<Result<AuthSecret, StoreError>>>,
) -> Seq<DoctorCheckView> {
    let head = match material {
        Some(material) => seq![loaded_check(config), material_check(config, material)],
        None => seq![loaded_check(config)],
    };
    head + Seq::new(
        config.profiles.len(),
        |i: int| secret_check(config.profiles[i], material, read_at(reads, i)),
    )
}

/// The report on what was found: a configuration that could not be loaded is reported alone.
pub open spec fn diagnosis(
    loaded: Result<ProfileRepository, AuthError>,
    material: Result<Option<SecretMaterial>, AuthError>,
    paths: Result<AppPaths, StoreError>,
    reads: Seq<Option<Result<AuthSecret, StoreError>>>,
) -> Result<DoctorReportView, AuthErrorView> {
    match (loaded, material, paths) {
        (Err(error), _, _) => Ok(
            DoctorReportView {
                overall_status: DoctorStatus::Error,
                checks: seq![
                    DoctorCheckView {
                        name: "config"@,
                        status: DoctorStatus::Error,
                        detail: error@.text(),
                    },
                ],
            },
        ),
        (Ok(_), Err(error), _) => Err(error@),
        (Ok(_), Ok(_), Err(error)) => Err(AuthErrorView::Store(error@)),
        (Ok(repository), Ok(material), Ok(_)) => {
            let checks = checks_of(repository@, material.deep_view(), reads);
            Ok(DoctorReportView { overall_status: worst(checks), checks })
        },
    }
}

/// Reports on the configuration, the secret material beside it, the program's directories and
/// each profile's secret, given what came of loading and reading them: `reads` holds what reading
/// each profile's secret from its store gave, where the check needs it.
pub fn run_doctor(
    loaded: Result<ProfileRepository, AuthError>,
    material: Result<Option<SecretMaterial>, AuthError>,
    paths: Result<AppPaths, StoreError>,
    reads: &Vec<Option<Result<AuthSecret, StoreError>>>,
) -> (r: Result<DoctorReport, AuthError>)
    requires
        (loaded is Ok && material is Ok && paths is Ok) ==> reads_suffice(
            loaded->Ok_0@,
            material->Ok_0.deep_view(),
            reads@,
        ),
    ensures
        match (r, diagnosis(loaded, material, paths, reads@)) {
            (Ok(report), Ok(wanted)) => report@ == wanted,
            (Err(error), Err(wanted)) => error@ == wanted,
            _ => false,
        },
{
    let mut checks: Vec<DoctorCheck> = Vec::new();
    let repository = match loaded {
        Ok(repository) => {
            let count = text::from_u64(repository.config.profiles.len() as u64);
            let mut detail = text::concat("loaded ", count.as_str());
            detail.append(" profiles");
            checks.push(
                DoctorCheck { name: "config".to_owned(), status: DoctorStatus::Passed, detail },
            );
            repository
        },
        Err(error) => {
            checks.push(
                DoctorCheck {
                    name: "config".to_owned(),
                    status: DoctorStatus::Error,
                    detail: error.message(),
                },
            );
            let report = DoctorReport { overall_status: DoctorStatus::Error, checks };
            assert(report@.checks =~= seq![
                DoctorCheckView {
                    name: "config"@,
                    status: DoctorStatus::Error,
                    detail: error@.text(),
                },
            ]);
            return Ok(report);
        },
    };
    let secret_material = match material {
        Ok(material) => material,
        Err(error) => {
            return Err(error);
        },
    };
    if let Some(material) = &secret_material {
        match validate_secret_material(&repository.config, material) {
            Ok(detail) => checks.push(
                DoctorCheck {
                    name: "secret_material".to_owned(),
                    status: DoctorStatus::Passed,
                    detail,
                },
            ),
            Err(error) => checks.push(
                DoctorCheck {
                    name: "secret_material".to_owned(),
                    status: DoctorStatus::Error,
                    detail: error.message(),
                },
            ),
        }
    }
    if let Err(error) = paths {
        return Err(AuthError::Store(error));
    }
    let ghost config = repository@;
    let ghost view = secret_material.deep_view();
    let ghost head = checks.deep_view();
    let ghost wanted = checks_of(config, view, reads@);
    assert(head =~= wanted.take(head.len() as int));
    let mut i: usize = 0;
    while i < repository.config.profiles.len()
        invariant
            i <= repository.config.profiles.len(),
            config == repository@,
            view == secret_material.deep_view(),
            reads_suffice(config, view, reads@),
            wanted == checks_of(config, view, reads@),
            head.len() == (if view is Some {
                2int
            } else {
                1int
            }),
            checks.deep_view() == wanted.take(head.len() + i),
        decreases repository.config.profiles.len() - i,
    {
        let ghost done = checks.deep_view();
        let configured = &repository.config.profiles[i];
        assert(config.profiles[i as int] == configured@);
        let unread: Option<Result<AuthSecret, StoreError>> = None;
        let read = if i < reads.len() {
            &reads[i]
        } else {
            &unread
        };
        checks.push(validate_profile_secret(configured, secret_material.as_ref(), read));
        i = i + 1;
        let ghost at = head.len() + i - 1;
        assert(wanted[at] == secret_check(configured@, view, read_at(reads@, i - 1)));
        assert(checks.deep_view() =~= done.push(wanted[at]));
        assert(wanted.take(at + 1) =~= wanted.take(at).push(wanted[at]));
    }
    assert(wanted.take(head.len() + i) =~= wanted);
    let overall_status = overall_status(&checks);
    Ok(DoctorReport { overall_status, checks })
}

/// The doctor command of a command line, if it names one.
pub fn dispatch_command(command: &Command) -> (r: Option<&DoctorCommand>)
    ensures
        match (r, command@) {
            (Some(doctor), CommandView::Doctor(named)) => doctor@ == named,
            (Some(_), _) => false,
            (None, named) => !(named is Doctor),
        },
{
    match command {
        Command::Doctor(doctor) => Some(doctor),
        _ => None,
    }
}

/// Every report names the worst of its checks, and never says that all is well where one of them
/// failed.
pub proof fn lemma_overall_is_worst(
    loaded: Result<ProfileRepository, AuthError>,
    material: Result<Option<SecretMaterial>, AuthError>,
    paths: Result<AppPaths, StoreError>,
    reads: Seq<Option<Result<AuthSecret, StoreError>>>,
)
    ensures
        diagnosis(loaded, material, paths, reads) matches Ok(report) ==> {
            &&& report.overall_status == worst(report.checks)
            &&& forall|i: int|
                0 <= i < report.checks.len() && (#[trigger] report.checks[i]).status is Error
                    ==> report.overall_status is Error
        },
{
    if let Err(error) = loaded {
        let report = diagnosis(loaded, material, paths, reads)->Ok_0;
        assert(report.checks[0].status is Error);
    }
}

/// Every profile of a loaded configuration has its check in the report.
pub proof fn lemma_every_profile_is_checked(
    config: PlainConfigView,
    material: Option<SecretMaterialView>,
    reads: Seq<Option<Result<AuthSecret, StoreError>>>,
    i: int,
)
    requires
        0 <= i < config.profiles.len(),
    ensures
        exists|k: int|
            0 <= k < checks_of(config, material, reads).len() && (#[trigger] checks_of(
                config,
                material,
                reads,
            )[k]).name == "profile:"@ + config.profiles[i].profile.id,
{
    let checks = checks_of(config, material, reads);
    let k = if material is Some {
        i + 2
    } else {
        i + 1
    };
    assert(checks[k] == secret_check(config.profiles[i], material, read_at(reads, i)));
}

/// Each status has its own word, and each word stands for one status.
pub proof fn lemma_status_words(status: DoctorStatus)
    ensures
        status_text(status) == "ok"@ <==> status is Passed,
        status_text(status) == "warning"@ <==> status is Warning,
        status_text(status) == "error"@ <==> status is Error,
{
    reveal_strlit("ok");
    reveal_strlit("warning");
    reveal_strlit("error");
    assert("ok"@.len() == 2 && "warning"@.len() == 7 && "error"@.len() == 5);
}

/// The checks of a report on a configuration that was loaded: the configuration, the secret material
/// where there is some, and then each profile at its own place, under its own id. The report says
/// error exactly where one of them is an error, and else warning exactly where one of them is one.
pub proof fn lemma_shape_of_a_report(
    repository: ProfileRepository,
    material: Option<SecretMaterial>,
    paths: AppPaths,
    reads: Seq<Option<Result<AuthSecret, StoreError>>>,
)
    ensures
        diagnosis(Ok(repository), Ok(material), Ok(paths), reads) matches Ok(report) && {
            let profiles = repository@.profiles;
            let head: int = if material is Some {
                2
            } else {
                1
            };
            &&& report.checks.len() == head + profiles.len()
            &&& report.checks[0].name == "config"@
            &&& report.checks[0].status is Passed
            &&& report.checks[0].detail == "loaded "@ + decimal(profiles.len()) + " profiles"@
            &&& material is Some ==> report.checks[1].name == "secret_material"@
            &&& forall|i: int|
                0 <= i < profiles.len() ==> report.checks[head + i].name == "profile:"@ + (
                #[trigger] profiles[i]).profile.id
            &&& report.overall_status is Error <==> exists|k: int|
                0 <= k < report.checks.len() && (#[trigger] report.checks[k]).status is Error
            &&& report.overall_status is Passed <==> forall|k: int|
                0 <= k < report.checks.len() ==> (#[trigger] report.checks[k]).status is Passed
        },
{
    let checks = checks_of(repository@, material.deep_view(), reads);
    let profiles = repository@.profiles;
    let head: int = if material is Some {
        2
    } else {
        1
    };
    assert forall|i: int| 0 <= i < profiles.len() implies checks[head + i].name == "profile:"@ + (
    #[trigger] profiles[i]).profile.id by {
        assert(checks[head + i] == secret_check(
            profiles[i],
            material.deep_view(),
            read_at(reads, i),
        ));
    }
    if worst(checks) is Passed {
        assert forall|k: int| 0 <= k < checks.len() implies (#[trigger] checks[k]).status is Passed by {
            assert(!(checks[k].status is Error) && !(checks[k].status is Warning));
        }
    }
}

/// A profile's check where there is no secret material and a store keeps the secret, in a file or in
/// the keychain: a reading that failed is an error, told by its text, and makes the whole report one;
/// a secret that was read goes by its own shape.
pub proof fn lemma_failed_reading_is_an_error(
    repository: ProfileRepository,
    paths: AppPaths,
    reads: Seq<Option<Result<AuthSecret, StoreError>>>,
    i: int,
)
    requires
        0 <= i < repository@.profiles.len(),
        !(repository@.profiles[i].secret_ref is Managed),
        i < reads.len(),
        reads[i] is Some,
    ensures
        diagnosis(Ok(repository), Ok(None), Ok(paths), reads) matches Ok(report) && match reads[i]
            ->Some_0 {
            Err(error) => {
                &&& report.checks[1 + i].status is Error
                &&& report.checks[1 + i].detail == error@.text()
                &&& report.overall_status is Error
            },
            Ok(secret) => {
                &&& report.checks[1 + i].status == secret_status(secret@).0
                &&& report.checks[1 + i].detail == secret_status(secret@).1
            },
        },
{
    let checks = checks_of(repository@, None, reads);
    assert(checks[1 + i] == secret_check(repository@.profiles[i], None, read_at(reads, i)));
}

/// A profile whose secret something else manages is warned of by name where there is no secret
/// material, whatever was read.
pub proof fn lemma_managed_secret_is_warned_of(
    repository: ProfileRepository,
    paths: AppPaths,
    reads: Seq<Option<Result<AuthSecret, StoreError>>>,
    i: int,
)
    requires
        0 <= i < repository@.profiles.len(),
        repository@.profiles[i].secret_ref is Managed,
    ensures
        diagnosis(Ok(repository), Ok(None), Ok(paths), reads) matches Ok(report) && {
            &&& report.checks[1 + i].status is Warning
            &&& repository@.profiles[i].secret_ref matches SecretRefView::Managed { id }
                && report.checks[1 + i].detail == "managed secret ref `"@ + id
                + "` requires external backend"@
            &&& !(report.overall_status is Passed)
        },
{
    let checks = checks_of(repository@, None, reads);
    assert(checks[1 + i] == secret_check(repository@.profiles[i], None, read_at(reads, i)));
    assert(checks[1 + i].status is Warning);
}

/// Where there is secret material, a profile goes by its own entry there, whatever its reference is
/// and whatever was read; a profile without an entry is an error, its own and that of the material,
/// and makes the whole report one.
pub proof fn lemma_material_is_checked(
    repository: ProfileRepository,
    material: SecretMaterial,
    paths: AppPaths,
    reads: Seq<Option<Result<AuthSecret, StoreError>>>,
    i: int,
)
    requires
        0 <= i < repository@.profiles.len(),
    ensures
        diagnosis(Ok(repository), Ok(Some(material)), Ok(paths), reads) matches Ok(report)
            && match entry_of(material@.entries, repository@.profiles[i].profile.id) {
            Some(secret) => {
                &&& report.checks[2 + i].status == secret_status(secret).0
                &&& report.checks[2 + i].detail == secret_status(secret).1
            },
            None => {
                &&& report.checks[2 + i].status is Error
                &&& report.checks[2 + i].detail == "missing secret entry in sidecar material"@
                &&& report.checks[1].status is Error
                &&& report.overall_status is Error
            },
        },
{
    let profiles = repository@.profiles;
    let entries = material@.entries;
    let checks = checks_of(repository@, Some(material@), reads);
    assert(checks[2 + i] == secret_check(profiles[i], Some(material@), read_at(reads, i)));
    lemma_first_without_entry(profiles, entries);
    assert(checks[1] == material_check(repository@, material@));
}

proof fn lemma_first_without_entry(
    profiles: Seq<ConfiguredProfileView>,
    entries: Seq<SecretEntryView>,
)
    ensures
        match first_without_entry(profiles, entries) {
            Some(id) => exists|i: int|
                0 <= i < profiles.len() && (#[trigger] profiles[i]).profile.id == id && entry_of(
                    entries,
                    id,
                ) is None && forall|j: int|
                    0 <= j < i ==> entry_of(entries, (#[trigger] profiles[j]).profile.id) is Some,
            None => forall|i: int|
                0 <= i < profiles.len() ==> entry_of(
                    entries,
                    (#[trigger] profiles[i]).profile.id,
                ) is Some,
        },
    decreases profiles.len(),
{
    if profiles.len() > 0 && entry_of(entries, profiles[0].profile.id) is Some {
        let rest = profiles.drop_first();
        lemma_first_without_entry(rest, entries);
        assert(forall|j: int| 0 < j < profiles.len() ==> #[trigger] profiles[j] == rest[j - 1]);
        if let Some(id) = first_without_entry(rest, entries) {
            let k = choose|i: int|
                0 <= i < rest.len() && (#[trigger] rest[i]).profile.id == id && entry_of(
                    entries,
                    id,
                ) is None && forall|j: int|
                    0 <= j < i ==> entry_of(entries, (#[trigger] rest[j]).profile.id) is Some;
            assert(profiles[k + 1] == rest[k]);
            assert forall|j: int| 0 <= j < k + 1 implies entry_of(
                entries,
                (#[trigger] profiles[j]).profile.id,
            ) is Some by {
                if j > 0 {
                    assert(entry_of(entries, rest[j - 1].profile.id) is Some);
                }
            }
        }
    } else if profiles.len() > 0 {
        assert(profiles[0].profile.id == first_without_entry(profiles, entries).unwrap());
    }
}

/// Secret material passes exactly where every profile has an entry in it, and then its check tells
/// how many of each there are; else it names the first profile that has none.
pub proof fn lemma_complete_material(
    repository: ProfileRepository,
    material: SecretMaterial,
    paths: AppPaths,
    reads: Seq<Option<Result<AuthSecret, StoreError>>>,
)
    ensures
        diagnosis(Ok(repository), Ok(Some(material)), Ok(paths), reads) matches Ok(report) && {
            let profiles = repository@.profiles;
            let entries = material@.entries;
            &&& report.checks[1].status is Passed <==> forall|i: int|
                0 <= i < profiles.len() ==> entry_of(
                    entries,
                    (#[trigger] profiles[i]).profile.id,
                ) is Some
            &&& report.checks[1].status is Passed ==> report.checks[1].detail == "loaded "@
                + decimal(entries.len()) + " secret entries for "@ + decimal(profiles.len())
                + " profiles"@
            &&& !(report.checks[1].status is Passed) ==> report.checks[1].status is Error && exists|
                i: int,
            |
                0 <= i < profiles.len() && report.checks[1].detail
                    == "missing secret entry for profile `"@ + (#[trigger] profiles[i]).profile.id
                    + "`"@ && entry_of(entries, profiles[i].profile.id) is None && forall|j: int|
                    0 <= j < i ==> entry_of(entries, (#[trigger] profiles[j]).profile.id) is Some
        },
{
    lemma_first_without_entry(repository@.profiles, material@.entries);
    let checks = checks_of(repository@, Some(material@), reads);
    assert(checks[1] == material_check(repository@, material@));
}

/// The shape of a secret: a blank one is an error, whatever its kind; a session that is not blank
/// passes; an API key that is not blank passes where it begins with `sk-`, and is warned of where it
/// does not.
pub proof fn lemma_secret_shapes(secret: AuthSecretView)
    ensures
        ({
            let (status, detail) = secret_status(secret);
            match secret {
                AuthSecretView::BrowserSession { session_payload } => {
                    &&& status is Error <==> trimmed(session_payload).len() == 0
                    &&& status is Passed <==> trimmed(session_payload).len() > 0
                    &&& status is Error ==> detail == "empty browser session payload"@
                    &&& status is Passed ==> detail == "browser session payload present"@
                },
                AuthSecretView::HeadlessSession { session_payload } => {
                    &&& status is Error <==> trimmed(session_payload).len() == 0
                    &&& status is Passed <==> trimmed(session_payload).len() > 0
                    &&& status is Error ==> detail == "empty headless session payload"@
                    &&& status is Passed ==> detail == "headless session payload present"@
                },
                AuthSecretView::ApiKey { api_key } => {
                    let blank = trimmed(api_key).len() == 0;
                    let shaped = api_key.len() >= 3 && api_key[0] == 's' && api_key[1] == 'k'
                        && api_key[2] == '-';
                    &&& status is Error <==> blank
                    &&& status is Passed <==> !blank && shaped
                    &&& status is Warning <==> !blank && !shaped
                    &&& status is Error ==> detail == "empty api key"@
                    &&& status is Passed ==> detail == "api key shape looks valid"@
                    &&& status is Warning ==> detail
                        == "api key is non-empty but missing `sk-` prefix"@
                },
            }
        }),
{
    if let AuthSecretView::ApiKey { api_key } = secret {
        reveal_strlit("sk-");
        let prefix = "sk-"@;
        assert(prefix.len() == 3 && prefix[0] == 's' && prefix[1] == 'k' && prefix[2] == '-');
        if api_key.len() >= 3 && api_key[0] == 's' && api_key[1] == 'k' && api_key[2] == '-' {
            assert(prefix =~= api_key.take(3));
        }
        if prefix.is_prefix_of(api_key) {
            assert(prefix == api_key.take(3));
            assert(api_key[0] == prefix[0] && api_key[1] == prefix[1] && api_key[2] == prefix[2]);
        }
    }
}

/// A configuration that cannot be loaded gives a report all the same: one check, an error that says
/// why. Material that cannot be read, or directories that are not known, give the error itself, the
/// material's first.
pub proof fn lemma_what_could_not_be_read(
    loaded: Result<ProfileRepository, AuthError>,
    material: Result<Option<SecretMaterial>, AuthError>,
    paths: Result<AppPaths, StoreError>,
    reads: Seq<Option<Result<AuthSecret, StoreError>>>,
)
    ensures
        match (loaded, material, paths, diagnosis(loaded, material, paths, reads)) {
            (Err(error), _, _, Ok(report)) => {
                &&& report.overall_status is Error
                &&& report.checks.len() == 1
                &&& report.checks[0].name == "config"@
                &&& report.checks[0].status is Error
                &&& report.checks[0].detail == error@.text()
            },
            (Ok(_), Err(error), _, Err(given)) => given == error@,
            (Ok(_), Ok(_), Err(error), Err(given)) => given == AuthErrorView::Store(error@),
            (Ok(_), Ok(_), Ok(_), Ok(_)) => true,
            _ => false,
        },
{
}

/// The lines of a report: first the overall status, then one line for each check, in their order,
/// with its status, name and detail.
pub proof fn lemma_report_lines(report: DoctorReportView, i: int)
    ensures
        report_lines(report).len() == 1 + report.checks.len(),
        report_lines(report)[0] == "overall: "@ + status_text(report.overall_status),
        0 <= i < report.checks.len() ==> report_lines(report)[1 + i] == status_text(
            report.checks[i].status,
        ) + ": "@ + report.checks[i].name + " - "@ + report.checks[i].detail,
{
}

/// A profile's own check: a failed reading of a secret that a store keeps, or a missing entry in the
/// secret material, is an error; it is named after the profile.
pub proof fn lemma_check_of_a_profile(
    configured: ConfiguredProfile,
    material: Option<&SecretMaterial>,
    read: Option<Result<AuthSecret, StoreError>>,
    r: DoctorCheck,
)
    requires
        call_ensures(validate_profile_secret, (&configured, material, &read), r),
    ensures
        r.name@ == "profile:"@ + configured.profile.id@,
        material is None && !(configured.secret_ref is Managed) && (read matches Some(Err(_)))
            ==> r.status is Error,
        material is None && configured.secret_ref is Managed ==> r.status is Warning,
        material matches Some(given) && entry_of(given@.entries, configured.profile.id@) is None
            ==> r.status is Error,
{
    assert(configured@.secret_ref is Managed <==> configured.secret_ref is Managed);
    assert(configured@.profile.id == configured.profile.id@);
}

/// Secret material is found complete exactly where every profile has an entry in it.
pub proof fn lemma_validated_material(
    config: PlainConfig,
    material: SecretMaterial,
    r: Result<String, StoreError>,
)
    requires
        call_ensures(validate_secret_material, (&config, &material), r),
    ensures
        r is Ok <==> forall|i: int|
            0 <= i < config@.profiles.len() ==> entry_of(
                material@.entries,
                (#[trigger] config@.profiles[i]).profile.id,
            ) is Some,
        r matches Ok(detail) ==> detail@ == "loaded "@ + decimal(material@.entries.len())
            + " secret entries for "@ + decimal(config@.profiles.len()) + " profiles"@,
        r matches Err(error) ==> error is MissingSecret,
{
    lemma_first_without_entry(config@.profiles, material@.entries);
}

/// The doctor command that is run is the one that the command line names, and only such a one is.
pub proof fn lemma_dispatched(command: Command, r: Option<&DoctorCommand>)
    requires
        call_ensures(dispatch_command, (&command,), r),
    ensures
        r is Some <==> command is Doctor,
        command matches Command::Doctor(named) ==> r->0@ == named@,
{
}

} // verus!
