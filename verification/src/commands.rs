//! The commands of the program, as the command line is read into them.
use vstd::prelude::*;

verus! {

#[derive(Debug, Clone, PartialEq, Eq)]
pub enum Command {
    Help,
    Tui(TuiCommand),
    Profile(ProfileCommand),
    Auth,
    Refresh(RefreshCommand),
    Doctor(DoctorCommand),
}

/// The model of a [`Command`].
pub enum CommandView {
    Help,
    Tui(TuiCommandView),
    Profile(ProfileCommandView),
    Auth,
    Refresh(RefreshCommandView),
    Doctor(DoctorCommandView),
}

impl View for Command {
    type V = CommandView;

    open spec fn view(&self) -> CommandView {
        match *self {
            Command::Help => CommandView::Help,
            Command::Tui(c) => CommandView::Tui(c@),
            Command::Profile(c) => CommandView::Profile(c@),
            Command::Auth => CommandView::Auth,
            Command::Refresh(c) => CommandView::Refresh(c@),
            Command::Doctor(c) => CommandView::Doctor(c@),
        }
    }
}

/// The names of the subcommands.
pub open spec fn subcommands() -> Seq<Seq<char>> {
    seq!["tui"@, "profile"@, "auth"@, "refresh"@, "doctor"@]
}

/// The names of the subcommands, in the order in which the help text lists them.
pub fn command_names() -> (r: &'static [&'static str])
    ensures
        r@.map_values(|name: &str| name@) == subcommands(),
{
    let r: &'static [&'static str] = &["tui", "profile", "auth", "refresh", "doctor"];
    assert(r@.map_values(|name: &str| name@) =~= subcommands());
    r
}

#[derive(Debug, Clone, PartialEq, Eq)]
pub struct DoctorCommand {
    pub config: Option<String>,
    pub fixtures: Option<String>,
}

/// The model of a [`DoctorCommand`].
pub struct DoctorCommandView {
    pub config: Option<Seq<char>>,
    pub fixtures: Option<Seq<char>>,
}

impl View for DoctorCommand {
    type V = DoctorCommandView;

    open spec fn view(&self) -> DoctorCommandView {
        DoctorCommandView { config: self.config.deep_view(), fixtures: self.fixtures.deep_view() }
    }
}

impl Default for DoctorCommand {
    fn default() -> (r: Self)
        ensures
            r@ == (DoctorCommandView { config: None, fixtures: None }),
    {
        DoctorCommand { config: None, fixtures: None }
    }
}

#[derive(Debug, Clone, PartialEq, Eq)]
pub struct TuiCommand {
    pub fixtures: Option<String>,
}

/// The model of a [`TuiCommand`].
pub struct TuiCommandView {
    pub fixtures: Option<Seq<char>>,
}

impl View for TuiCommand {
    type V = TuiCommandView;

    open spec fn view(&self) -> TuiCommandView {
        TuiCommandView { fixtures: self.fixtures.deep_view() }
    }
}

impl Default for TuiCommand {
    fn default() -> (r: Self)
        ensures
            r@ == (TuiCommandView { fixtures: None }),
    {
        TuiCommand { fixtures: None }
    }
}

/// Describes the operator-triggered refresh run over configured profiles.
#[derive(Debug, PartialEq, Eq)]
pub struct RefreshCommand {
    pub config: Option<String>,
    pub fixtures: Option<String>,
    pub force: bool,
    pub now_epoch_secs: Option<u64>,
}

/// The model of a [`RefreshCommand`].
pub struct RefreshCommandView {
    pub config: Option<Seq<char>>,
    pub fixtures: Option<Seq<char>>,
    pub force: bool,
    pub now_epoch_secs: Option<u64>,
}

impl View for RefreshCommand {
    type V = RefreshCommandView;

    open spec fn view(&self) -> RefreshCommandView {
        RefreshCommandView {
            config: self.config.deep_view(),
            fixtures: self.fixtures.deep_view(),
            force: self.force,
            now_epoch_secs: self.now_epoch_secs,
        }
    }
}

impl DeepView for RefreshCommand {
    type V = RefreshCommandView;

    open spec fn deep_view(&self) -> RefreshCommandView {
        self@
    }
}

impl Clone for RefreshCommand {
    fn clone(&self) -> (r: Self)
        ensures
            r@ == self@,
    {
        RefreshCommand {
            config: self.config.clone(),
            fixtures: self.fixtures.clone(),
            force: self.force,
            now_epoch_secs: self.now_epoch_secs,
        }
    }
}

impl Default for RefreshCommand {
    fn default() -> (r: Self)
        ensures
            r@ == (RefreshCommandView {
                config: None,
                fixtures: None,
                force: false,
                now_epoch_secs: None,
            }),
    {
        RefreshCommand { config: None, fixtures: None, force: false, now_epoch_secs: None }
    }
}

#[derive(Debug, Clone, PartialEq, Eq)]
pub struct ProfileCommand {
    pub config: Option<String>,
    pub action: ProfileCommandAction,
}

/// The model of a [`ProfileCommand`].
pub struct ProfileCommandView {
    pub config: Option<Seq<char>>,
    pub action: ProfileCommandActionView,
}

impl View for ProfileCommand {
    type V = ProfileCommandView;

    open spec fn view(&self) -> ProfileCommandView {
        ProfileCommandView { config: self.config.deep_view(), action: self.action@ }
    }
}

impl DeepView for ProfileCommand {
    type V = ProfileCommandView;

    open spec fn deep_view(&self) -> ProfileCommandView {
        self@
    }
}

#[derive(Debug, Clone, PartialEq, Eq)]
#[allow(inconsistent_fields)]
pub enum ProfileCommandAction {
    List,
    Add {
        profile_id: String,
        display_name: String,
        auth_mode: String,
        account_kind: String,
        provider: String,
        membership_tier: Option<String>,
        plan_type: Option<String>,
    },
    Edit {
        profile_id: String,
        display_name: Option<String>,
        refresh_interval_secs: Option<u64>,
        membership_tier: Option<String>,
        plan_type: Option<String>,
    },
    SetDefault { profile_id: String },
    Remove { profile_id: String },
    Login { profile_id: String, auth_mode: String, secret: String, use_file_store: bool },
    Logout { profile_id: String },
}

/// The model of a [`ProfileCommandAction`].
#[allow(inconsistent_fields)]
pub enum ProfileCommandActionView {
    List,
    Add {
        profile_id: Seq<char>,
        display_name: Seq<char>,
        auth_mode: Seq<char>,
        account_kind: Seq<char>,
        provider: Seq<char>,
        membership_tier: Option<Seq<char>>,
        plan_type: Option<Seq<char>>,
    },
    Edit {
        profile_id: Seq<char>,
        display_name: Option<Seq<char>>,
        refresh_interval_secs: Option<u64>,
        membership_tier: Option<Seq<char>>,
        plan_type: Option<Seq<char>>,
    },
    SetDefault { profile_id: Seq<char> },
    Remove { profile_id: Seq<char> },
    Login {
        profile_id: Seq<char>,
        auth_mode: Seq<char>,
        secret: Seq<char>,
        use_file_store: bool,
    },
    Logout { profile_id: Seq<char> },
}

impl View for ProfileCommandAction {
    type V = ProfileCommandActionView;

    open spec fn view(&self) -> ProfileCommandActionView {
        match *self {
            ProfileCommandAction::List => ProfileCommandActionView::List,
            ProfileCommandAction::Add {
                profile_id,
                display_name,
                auth_mode,
                account_kind,
                provider,
                membership_tier,
                plan_type,
            } => ProfileCommandActionView::Add {
                profile_id: profile_id@,
                display_name: display_name@,
                auth_mode: auth_mode@,
                account_kind: account_kind@,
                provider: provider@,
                membership_tier: membership_tier.deep_view(),
                plan_type: plan_type.deep_view(),
            },
            ProfileCommandAction::Edit {
                profile_id,
                display_name,
                refresh_interval_secs,
                membership_tier,
                plan_type,
            } => ProfileCommandActionView::Edit {
                profile_id: profile_id@,
                display_name: display_name.deep_view(),
                refresh_interval_secs,
                membership_tier: membership_tier.deep_view(),
                plan_type: plan_type.deep_view(),
            },
            ProfileCommandAction::SetDefault {
                profile_id,
            } => ProfileCommandActionView::SetDefault { profile_id: profile_id@ },
            ProfileCommandAction::Remove { profile_id } => ProfileCommandActionView::Remove {
                profile_id: profile_id@,
            },
            ProfileCommandAction::Login {
                profile_id,
                auth_mode,
                secret,
                use_file_store,
            } => ProfileCommandActionView::Login {
                profile_id: profile_id@,
                auth_mode: auth_mode@,
                secret: secret@,
                use_file_store,
            },
            ProfileCommandAction::Logout { profile_id } => ProfileCommandActionView::Logout {
                profile_id: profile_id@,
            },
        }
    }
}

/// The help text lists the five subcommands, each once.
pub proof fn lemma_command_names(r: &'static [&'static str])
    requires
        call_ensures(command_names, (), r),
    ensures
        r@.len() == 5,
        r@[0]@ == "tui"@,
        r@[1]@ == "profile"@,
        r@[2]@ == "auth"@,
        r@[3]@ == "refresh"@,
        r@[4]@ == "doctor"@,
{
    let names = r@.map_values(|name: &str| name@);
    assert(names == subcommands());
    assert(names.len() == 5);
    assert(names[0] == r@[0]@ && names[1] == r@[1]@ && names[2] == r@[2]@ && names[3] == r@[3]@
        && names[4] == r@[4]@);
}

/// A command without options asks for nothing: no file, no fixture, no time, and no force.
pub proof fn lemma_commands_without_options(
    doctor: DoctorCommand,
    tui: TuiCommand,
    refresh: RefreshCommand,
)
    requires
        call_ensures(DoctorCommand::default, (), doctor),
        call_ensures(TuiCommand::default, (), tui),
        call_ensures(RefreshCommand::default, (), refresh),
    ensures
        doctor.config is None && doctor.fixtures is None,
        tui.fixtures is None,
        refresh.config is None && refresh.fixtures is None,
        !refresh.force,
        refresh.now_epoch_secs is None,
{
    assert(doctor@.config is None && doctor@.fixtures is None);
    assert(tui@.fixtures is None);
    assert(refresh@.config is None && refresh@.fixtures is None);
}

} // verus!
