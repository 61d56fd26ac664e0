//! The reading of the command line.
use vstd::prelude::*;
use vstd::string::*;

use crate::commands::{
    Command, CommandView, DoctorCommand, DoctorCommandView, ProfileCommand, ProfileCommandAction,
    ProfileCommandActionView, ProfileCommandView, RefreshCommand, RefreshCommandView, TuiCommand,
    TuiCommandView,
};
use crate::text::{self, parsed_u64};

verus! {

/// `args` from position `n` on.
pub open spec fn rest(args: Seq<Seq<char>>, n: int) -> Seq<Seq<char>> {
    if n <= args.len() {
        args.skip(n)
    } else {
        Seq::empty()
    }
}

/// The argument behind the first one.
pub open spec fn next_value(args: Seq<Seq<char>>) -> Option<Seq<char>> {
    if args.len() > 1 {
        Some(args[1])
    } else {
        None
    }
}

/// The number that an argument writes.
pub open spec fn number(value: Option<Seq<char>>) -> Option<u64> {
    match value {
        Some(s) => parsed_u64(s),
        None => None,
    }
}

/// The refresh command after the options of `args`, read from the left; a later option replaces
/// an earlier one, and what is no option is passed over.
pub open spec fn refresh_options(command: RefreshCommandView, args: Seq<Seq<char>>) -> RefreshCommandView
    decreases args.len(),
{
    if args.len() == 0 {
        command
    } else if args[0] == "--config"@ {
        refresh_options(
            RefreshCommandView { config: next_value(args), ..command },
            rest(args, 2),
        )
    } else if args[0] == "--fixtures"@ {
        refresh_options(
            RefreshCommandView { fixtures: next_value(args), ..command },
            rest(args, 2),
        )
    } else if args[0] == "--force"@ {
        refresh_options(RefreshCommandView { force: true, ..command }, rest(args, 1))
    } else if args[0] == "--now-epoch-secs"@ {
        refresh_options(
            RefreshCommandView { now_epoch_secs: number(next_value(args)), ..command },
            rest(args, 2),
        )
    } else {
        refresh_options(command, rest(args, 1))
    }
}

/// The doctor command after the options of `args`.
pub open spec fn doctor_options(command: DoctorCommandView, args: Seq<Seq<char>>) -> DoctorCommandView
    decreases args.len(),
{
    if args.len() == 0 {
        command
    } else if args[0] == "--config"@ {
        doctor_options(
            DoctorCommandView { config: next_value(args), ..command },
            rest(args, 2),
        )
    } else if args[0] == "--fixtures"@ {
        doctor_options(
            DoctorCommandView { fixtures: next_value(args), ..command },
            rest(args, 2),
        )
    } else {
        doctor_options(command, rest(args, 1))
    }
}

/// The panel command after the options of `args`.
pub open spec fn tui_options(command: TuiCommandView, args: Seq<Seq<char>>) -> TuiCommandView
    decreases args.len(),
{
    if args.len() == 0 {
        command
    } else if args[0] == "--fixtures"@ {
        tui_options(TuiCommandView { fixtures: next_value(args) }, rest(args, 2))
    } else {
        tui_options(command, rest(args, 1))
    }
}

/// The argument behind the first `flag` that has one behind it.
pub open spec fn flag_value(args: Seq<Seq<char>>, flag: Seq<char>) -> Option<Seq<char>>
    decreases args.len(),
{
    if args.len() < 2 {
        None
    } else if args[0] == flag {
        Some(args[1])
    } else {
        flag_value(args.drop_first(), flag)
    }
}

/// The id that is named: by its flag, or else by the first argument where that is no option.
pub open spec fn named_id(args: Seq<Seq<char>>) -> Option<Seq<char>> {
    match flag_value(args, "--id"@) {
        Some(id) => Some(id),
        None => if args.len() > 0 && !"--"@.is_prefix_of(args[0]) {
            Some(args[0])
        } else {
            None
        },
    }
}

/// The profile action that a subcommand and its options name, if no option that it needs is
/// missing.
pub open spec fn profile_action(subcommand: Seq<char>, args: Seq<Seq<char>>) -> Option<
    ProfileCommandActionView,
> {
    let id = flag_value(args, "--id"@);
    if subcommand == "list"@ {
        Some(ProfileCommandActionView::List)
    } else if subcommand == "add"@ {
        let name = flag_value(args, "--name"@);
        let auth_mode = flag_value(args, "--auth-mode"@);
        let account_kind = flag_value(args, "--account-kind"@);
        let provider = flag_value(args, "--provider"@);
        if id is Some && name is Some && auth_mode is Some && account_kind is Some && provider
            is Some {
            Some(
                ProfileCommandActionView::Add {
                    profile_id: id.unwrap(),
                    display_name: name.unwrap(),
                    auth_mode: auth_mode.unwrap(),
                    account_kind: account_kind.unwrap(),
                    provider: provider.unwrap(),
                    membership_tier: flag_value(args, "--membership-tier"@),
                    plan_type: flag_value(args, "--plan-type"@),
                },
            )
        } else {
            None
        }
    } else if subcommand == "edit"@ {
        if id is Some {
            Some(
                ProfileCommandActionView::Edit {
                    profile_id: id.unwrap(),
                    display_name: flag_value(args, "--name"@),
                    refresh_interval_secs: number(flag_value(args, "--refresh-interval-secs"@)),
                    membership_tier: flag_value(args, "--membership-tier"@),
                    plan_type: flag_value(args, "--plan-type"@),
                },
            )
        } else {
            None
        }
    } else if subcommand == "set-default"@ {
        match named_id(args) {
            Some(profile_id) => Some(ProfileCommandActionView::SetDefault { profile_id }),
            None => None,
        }
    } else if subcommand == "remove"@ {
        if id is Some {
            Some(ProfileCommandActionView::Remove { profile_id: id.unwrap() })
        } else {
            None
        }
    } else if subcommand == "login"@ {
        let auth_mode = flag_value(args, "--auth-mode"@);
        let secret = flag_value(args, "--secret"@);
        if id is Some && auth_mode is Some && secret is Some {
            Some(
                ProfileCommandActionView::Login {
                    profile_id: id.unwrap(),
                    auth_mode: auth_mode.unwrap(),
                    secret: secret.unwrap(),
                    use_file_store: args.contains("--file-store"@),
                },
            )
        } else {
            None
        }
    } else if subcommand == "logout"@ {
        match named_id(args) {
            Some(profile_id) => Some(ProfileCommandActionView::Logout { profile_id }),
            None => None,
        }
    } else {
        None
    }
}

/// The profile command that `args` name: a subcommand, then its options.
pub open spec fn profile_command(args: Seq<Seq<char>>) -> Option<ProfileCommandView> {
    if args.len() == 0 {
        None
    } else {
        match profile_action(args[0], args.drop_first()) {
            Some(action) => Some(
                ProfileCommandView { config: flag_value(args.drop_first(), "--config"@), action },
            ),
            None => None,
        }
    }
}

/// The command that a command line names; its first element is the program.
pub open spec fn parsed_command(args: Seq<Seq<char>>) -> CommandView {
    if args.len() < 2 {
        CommandView::Help
    } else if args[1] == "tui"@ {
        CommandView::Tui(tui_options(TuiCommandView { fixtures: None }, args.skip(2)))
    } else if args[1] == "profile"@ {
        match profile_command(args.skip(2)) {
            Some(command) => CommandView::Profile(command),
            None => CommandView::Help,
        }
    } else if args[1] == "auth"@ {
        CommandView::Auth
    } else if args[1] == "refresh"@ {
        CommandView::Refresh(
            refresh_options(
                RefreshCommandView {
                    config: None,
                    fixtures: None,
                    force: false,
                    now_epoch_secs: None,
                },
                args.skip(2),
            ),
        )
    } else if args[1] == "doctor"@ {
        CommandView::Doctor(
            doctor_options(DoctorCommandView { config: None, fixtures: None }, args.skip(2)),
        )
    } else {
        CommandView::Help
    }
}

/// The argument at position `i`, if there is one.
fn value_at(args: &Vec<String>, i: usize) -> (r: Option<String>)
    ensures
        r.deep_view() == (if i < args.len() {
            Some(args.deep_view()[i as int])
        } else {
            None
        }),
{
    if i < args.len() {
        Some(args[i].clone())
    } else {
        None
    }
}

fn number_at(args: &Vec<String>, i: usize) -> (r: Option<u64>)
    ensures
        r == number(
            if i < args.len() {
                Some(args.deep_view()[i as int])
            } else {
                None
            },
        ),
{
    if i < args.len() {
        text::parse_u64(args[i].as_str())
    } else {
        None
    }
}

/// The position `n` behind `i`, or the end of `args`.
fn step(args: &Vec<String>, i: usize, n: usize) -> (r: usize)
    requires
        i < args.len(),
        1 <= n <= 2,
    ensures
        i < r <= args.len(),
        args.deep_view().skip(r as int) == rest(args.deep_view().skip(i as int), n as int),
{
    if args.len() - i < n {
        assert(args.deep_view().skip(args.len() as int) =~= Seq::<Seq<char>>::empty());
        args.len()
    } else {
        assert(args.deep_view().skip(i + n) =~= args.deep_view().skip(i as int).skip(n as int));
        i + n
    }
}

fn parse_refresh_args(args: &Vec<String>, from: usize) -> (r: RefreshCommand)
    requires
        from <= args.len(),
    ensures
        r@ == refresh_options(
            RefreshCommandView { config: None, fixtures: None, force: false, now_epoch_secs: None },
            args.deep_view().skip(from as int),
        ),
{
    let mut command = RefreshCommand::default();
    let ghost all = args.deep_view();
    let ghost wanted = refresh_options(command@, all.skip(from as int));
    let mut i: usize = from;
    while i < args.len()
        invariant
            i <= args.len(),
            all == args.deep_view(),
            refresh_options(command@, all.skip(i as int)) == wanted,
        decreases args.len() - i,
    {
        let ghost left = all.skip(i as int);
        assert(left[0] == args@[i as int]@);
        assert(left.len() > 1 ==> left[1] == all[i + 1]);
        let arg = args[i].as_str();
        if text::same(arg, "--config") {
            command.config = value_at(args, i + 1);
            i = step(args, i, 2);
        } else if text::same(arg, "--fixtures") {
            command.fixtures = value_at(args, i + 1);
            i = step(args, i, 2);
        } else if text::same(arg, "--force") {
            command.force = true;
            i = step(args, i, 1);
        } else if text::same(arg, "--now-epoch-secs") {
            command.now_epoch_secs = number_at(args, i + 1);
            i = step(args, i, 2);
        } else {
            i = step(args, i, 1);
        }
    }
    command
}

fn parse_doctor_args(args: &Vec<String>, from: usize) -> (r: DoctorCommand)
    requires
        from <= args.len(),
    ensures
        r@ == doctor_options(
            DoctorCommandView { config: None, fixtures: None },
            args.deep_view().skip(from as int),
        ),
{
    let mut command = DoctorCommand::default();
    let ghost all = args.deep_view();
    let ghost wanted = doctor_options(command@, all.skip(from as int));
    let mut i: usize = from;
    while i < args.len()
        invariant
            i <= args.len(),
            all == args.deep_view(),
            doctor_options(command@, all.skip(i as int)) == wanted,
        decreases args.len() - i,
    {
        let ghost left = all.skip(i as int);
        assert(left[0] == args@[i as int]@);
        assert(left.len() > 1 ==> left[1] == all[i + 1]);
        let arg = args[i].as_str();
        if text::same(arg, "--config") {
            command.config = value_at(args, i + 1);
            i = step(args, i, 2);
        } else if text::same(arg, "--fixtures") {
            command.fixtures = value_at(args, i + 1);
            i = step(args, i, 2);
        } else {
            i = step(args, i, 1);
        }
    }
    command
}

fn parse_tui_args(args: &Vec<String>, from: usize) -> (r: TuiCommand)
    requires
        from <= args.len(),
    ensures
        r@ == tui_options(TuiCommandView { fixtures: None }, args.deep_view().skip(from as int)),
{
    let mut command = TuiCommand::default();
    let ghost all = args.deep_view();
    let ghost wanted = tui_options(command@, all.skip(from as int));
    let mut i: usize = from;
    while i < args.len()
        invariant
            i <= args.len(),
            all == args.deep_view(),
            tui_options(command@, all.skip(i as int)) == wanted,
        decreases args.len() - i,
    {
        let ghost left = all.skip(i as int);
        assert(left[0] == args@[i as int]@);
        assert(left.len() > 1 ==> left[1] == all[i + 1]);
        if text::same(args[i].as_str(), "--fixtures") {
            command.fixtures = value_at(args, i + 1);
            i = step(args, i, 2);
        } else {
            i = step(args, i, 1);
        }
    }
    command
}

fn option_value(args: &Vec<String>, from: usize, flag: &str) -> (r: Option<String>)
    requires
        from <= args.len(),
    ensures
        r.deep_view() == flag_value(args.deep_view().skip(from as int), flag@),
{
    let ghost all = args.deep_view();
    let mut i: usize = from;
    while i < args.len() && args.len() - i >= 2
        invariant
            from <= i <= args.len(),
            all == args.deep_view(),
            flag_value(all.skip(from as int), flag@) == flag_value(all.skip(i as int), flag@),
        decreases args.len() - i,
    {
        let ghost left = all.skip(i as int);
        assert(left[0] == args@[i as int]@);
        assert(left[1] == args@[i + 1]@);
        if text::same(args[i].as_str(), flag) {
            return Some(args[i + 1].clone());
        }
        i = i + 1;
        assert(left.drop_first() =~= all.skip(i as int));
    }
    None
}

fn id_value(args: &Vec<String>, from: usize) -> (r: Option<String>)
    requires
        from <= args.len(),
    ensures
        r.deep_view() == named_id(args.deep_view().skip(from as int)),
{
    match option_value(args, from, "--id") {
        Some(id) => Some(id),
        None => {
            if from == args.len() {
                return None;
            }
            assert(args.deep_view().skip(from as int)[0] == args@[from as int]@);
            if text::starts_with(args[from].as_str(), "--") {
                None
            } else {
                Some(args[from].clone())
            }
        },
    }
}

fn has_flag(args: &Vec<String>, from: usize, flag: &str) -> (r: bool)
    requires
        from <= args.len(),
    ensures
        r == args.deep_view().skip(from as int).contains(flag@),
{
    let ghost left = args.deep_view().skip(from as int);
    let mut i: usize = from;
    while i < args.len()
        invariant
            from <= i <= args.len(),
            left == args.deep_view().skip(from as int),
            forall|j: int| 0 <= j < i - from ==> left[j] != flag@,
        decreases args.len() - i,
    {
        assert(left[i - from] == args@[i as int]@);
        if text::same(args[i].as_str(), flag) {
            return true;
        }
        i = i + 1;
    }
    false
}

fn parse_number(value: Option<String>) -> (r: Option<u64>)
    ensures
        r == number(value.deep_view()),
{
    match value {
        Some(s) => text::parse_u64(s.as_str()),
        None => None,
    }
}

fn parse_profile_action(subcommand: &str, args: &Vec<String>, from: usize) -> (r: Option<
    ProfileCommandAction,
>)
    requires
        from <= args.len(),
    ensures
        match r {
            Some(action) => profile_action(subcommand@, args.deep_view().skip(from as int)) == Some(
                action@,
            ),
            None => profile_action(subcommand@, args.deep_view().skip(from as int)) is None,
        },
{
    if text::same(subcommand, "list") {
        return Some(ProfileCommandAction::List);
    }
    let id = option_value(args, from, "--id");
    if text::same(subcommand, "add") {
        let name = option_value(args, from, "--name");
        let auth_mode = option_value(args, from, "--auth-mode");
        let account_kind = option_value(args, from, "--account-kind");
        let provider = option_value(args, from, "--provider");
        match (id, name, auth_mode, account_kind, provider) {
            (
                Some(profile_id),
                Some(display_name),
                Some(auth_mode),
                Some(account_kind),
                Some(provider),
            ) => Some(
                ProfileCommandAction::Add {
                    profile_id,
                    display_name,
                    auth_mode,
                    account_kind,
                    provider,
                    membership_tier: option_value(args, from, "--membership-tier"),
                    plan_type: option_value(args, from, "--plan-type"),
                },
            ),
            _ => None,
        }
    } else if text::same(subcommand, "edit") {
        match id {
            Some(profile_id) => Some(
                ProfileCommandAction::Edit {
                    profile_id,
                    display_name: option_value(args, from, "--name"),
                    refresh_interval_secs: parse_number(
                        option_value(args, from, "--refresh-interval-secs"),
                    ),
                    membership_tier: option_value(args, from, "--membership-tier"),
                    plan_type: option_value(args, from, "--plan-type"),
                },
            ),
            None => None,
        }
    } else if text::same(subcommand, "set-default") {
        match id_value(args, from) {
            Some(profile_id) => Some(ProfileCommandAction::SetDefault { profile_id }),
            None => None,
        }
    } else if text::same(subcommand, "remove") {
        match id {
            Some(profile_id) => Some(ProfileCommandAction::Remove { profile_id }),
            None => None,
        }
    } else if text::same(subcommand, "login") {
        let auth_mode = option_value(args, from, "--auth-mode");
        let secret = option_value(args, from, "--secret");
        match (id, auth_mode, secret) {
            (Some(profile_id), Some(auth_mode), Some(secret)) => Some(
                ProfileCommandAction::Login {
                    profile_id,
                    auth_mode,
                    secret,
                    use_file_store: has_flag(args, from, "--file-store"),
                },
            ),
            _ => None,
        }
    } else if text::same(subcommand, "logout") {
        match id_value(args, from) {
            Some(profile_id) => Some(ProfileCommandAction::Logout { profile_id }),
            None => None,
        }
    } else {
        None
    }
}

fn parse_profile_args(args: &Vec<String>, from: usize) -> (r: Option<ProfileCommand>)
    requires
        from <= args.len(),
    ensures
        match r {
            Some(command) => profile_command(args.deep_view().skip(from as int)) == Some(command@),
            None => profile_command(args.deep_view().skip(from as int)) is None,
        },
{
    if from == args.len() {
        return None;
    }
    let ghost given = args.deep_view().skip(from as int);
    assert(given[0] == args@[from as int]@);
    assert(given.drop_first() =~= args.deep_view().skip(from + 1));
    let config = option_value(args, from + 1, "--config");
    match parse_profile_action(args[from].as_str(), args, from + 1) {
        Some(action) => Some(ProfileCommand { config, action }),
        None => None,
    }
}

/// Reads the command line; what it cannot read is answered with the help text.
pub fn parse_args(args: Vec<String>) -> (r: Command)
    ensures
        r@ == parsed_command(args.deep_view()),
{
    if args.len() < 2 {
        return Command::Help;
    }
    let name = args[1].as_str();
    assert(args.deep_view()[1] == name@);
    if text::same(name, "tui") {
        Command::Tui(parse_tui_args(&args, 2))
    } else if text::same(name, "profile") {
        match parse_profile_args(&args, 2) {
            Some(command) => Command::Profile(command),
            None => Command::Help,
        }
    } else if text::same(name, "auth") {
        Command::Auth
    } else if text::same(name, "refresh") {
        Command::Refresh(parse_refresh_args(&args, 2))
    } else if text::same(name, "doctor") {
        Command::Doctor(parse_doctor_args(&args, 2))
    } else {
        Command::Help
    }
}

/// A flag that does not occur has no value.
pub proof fn lemma_absent_flag(args: Seq<Seq<char>>, flag: Seq<char>)
    requires
        !args.contains(flag),
    ensures
        flag_value(args, flag) is None,
    decreases args.len(),
{
    if args.len() >= 2 {
        assert(args.contains(args[0]));
        let left = args.drop_first();
        if left.contains(flag) {
            let i = choose|i: int| 0 <= i < left.len() && left[i] == flag;
            assert(args[i + 1] == flag);
        }
        lemma_absent_flag(left, flag);
    }
}

/// A profile subcommand other than `list` that names no `--id`, and has no argument that is no
/// option right behind it, is answered with the help text: nothing else is taken for the id.
pub proof fn lemma_profile_needs_id(args: Seq<Seq<char>>)
    requires
        args.len() >= 3,
        args[1] == "profile"@,
        args[2] != "list"@,
        !args.skip(3).contains("--id"@),
        args.len() > 3 ==> "--"@.is_prefix_of(args[3]),
    ensures
        parsed_command(args) == CommandView::Help,
{
    reveal_strlit("profile");
    reveal_strlit("tui");
    assert("profile"@.len() != "tui"@.len());
    assert(args.skip(2).drop_first() =~= args.skip(3));
    assert(args.skip(2)[0] == args[2]);
    assert(args.len() > 3 ==> args.skip(3)[0] == args[3]);
    lemma_absent_flag(args.skip(3), "--id"@);
}

/// What a flag is given is the argument behind it, at the first place where it has one; it is given
/// nothing only where there is no such place.
pub proof fn lemma_flag_value(args: Seq<Seq<char>>, flag: Seq<char>)
    ensures
        match flag_value(args, flag) {
            Some(value) => exists|i: int|
                0 <= i < args.len() - 1 && #[trigger] args[i] == flag && args[i + 1] == value
                    && forall|j: int| 0 <= j < i ==> #[trigger] args[j] != flag,
            None => forall|i: int| 0 <= i < args.len() - 1 ==> #[trigger] args[i] != flag,
        },
    decreases args.len(),
{
    if args.len() >= 2 {
        if args[0] == flag {
            assert(args[0] == flag && args[1] == flag_value(args, flag).unwrap());
        } else {
            let rest = args.drop_first();
            lemma_flag_value(rest, flag);
            assert(forall|j: int| 0 < j < args.len() ==> #[trigger] args[j] == rest[j - 1]);
            if let Some(value) = flag_value(rest, flag) {
                let k = choose|i: int|
                    0 <= i < rest.len() - 1 && #[trigger] rest[i] == flag && rest[i + 1] == value
                        && forall|j: int| 0 <= j < i ==> #[trigger] rest[j] != flag;
                assert(args[k + 1] == rest[k]);
                assert(args[k + 1 + 1] == rest[k + 1]);
                assert forall|j: int| 0 <= j < k + 1 implies #[trigger] args[j] != flag by {
                    if j > 0 {
                        assert(rest[j - 1] != flag);
                    }
                }
            }
        }
    }
}

/// The first argument names the command; what is no command, or none at all, is answered with the
/// help text.
pub proof fn lemma_commands_by_name(args: Seq<Seq<char>>)
    ensures
        ({
            let command = parsed_command(args);
            let named = |name: Seq<char>| args.len() >= 2 && args[1] == name;
            &&& command is Tui <==> named("tui"@)
            &&& command is Auth <==> named("auth"@)
            &&& command is Refresh <==> named("refresh"@)
            &&& command is Doctor <==> named("doctor"@)
            &&& command is Profile ==> named("profile"@)
            &&& command is Help ==> !named("tui"@) && !named("auth"@) && !named("refresh"@)
                && !named("doctor"@)
        }),
{
    reveal_strlit("tui");
    reveal_strlit("profile");
    reveal_strlit("auth");
    reveal_strlit("refresh");
    reveal_strlit("doctor");
    assert("tui"@.len() == 3 && "profile"@.len() == 7 && "auth"@.len() == 4);
    assert("refresh"@.len() == 7 && "doctor"@.len() == 6);
    assert("profile"@[0] == 'p' && "refresh"@[0] == 'r');
}

proof fn lemma_option_names()
    ensures
        "--config"@ != "--fixtures"@,
        "--config"@ != "--force"@,
        "--config"@ != "--now-epoch-secs"@,
        "--fixtures"@ != "--force"@,
        "--fixtures"@ != "--now-epoch-secs"@,
        "--force"@ != "--now-epoch-secs"@,
{
    reveal_strlit("--config");
    reveal_strlit("--fixtures");
    reveal_strlit("--force");
    reveal_strlit("--now-epoch-secs");
    assert("--config"@.len() == 8 && "--fixtures"@.len() == 10 && "--force"@.len() == 7);
    assert("--now-epoch-secs"@.len() == 16);
}

proof fn lemma_rest_keeps_absence(args: Seq<Seq<char>>, n: int, flag: Seq<char>)
    requires
        n >= 0,
        !args.contains(flag),
    ensures
        !rest(args, n).contains(flag),
{
    if n <= args.len() && rest(args, n).contains(flag) {
        let i = choose|i: int| 0 <= i < rest(args, n).len() && rest(args, n)[i] == flag;
        assert(args[i + n] == flag);
    }
}

/// An option that is not given leaves its field as it is: where none is, a refresh is not forced and
/// has neither a configuration nor fixtures nor a time.
pub proof fn lemma_absent_refresh_options(command: RefreshCommandView, args: Seq<Seq<char>>)
    ensures
        !args.contains("--config"@) ==> refresh_options(command, args).config == command.config,
        !args.contains("--fixtures"@) ==> refresh_options(command, args).fixtures
            == command.fixtures,
        !args.contains("--force"@) ==> refresh_options(command, args).force == command.force,
        !args.contains("--now-epoch-secs"@) ==> refresh_options(command, args).now_epoch_secs
            == command.now_epoch_secs,
        command.force ==> refresh_options(command, args).force,
    decreases args.len(),
{
    lemma_option_names();
    if args.len() > 0 {
        assert(args.contains(args[0]));
        let n: int = if args[0] == "--config"@ || args[0] == "--fixtures"@ || args[0]
            == "--now-epoch-secs"@ {
            2
        } else {
            1
        };
        let next = if args[0] == "--config"@ {
            RefreshCommandView { config: next_value(args), ..command }
        } else if args[0] == "--fixtures"@ {
            RefreshCommandView { fixtures: next_value(args), ..command }
        } else if args[0] == "--force"@ {
            RefreshCommandView { force: true, ..command }
        } else if args[0] == "--now-epoch-secs"@ {
            RefreshCommandView { now_epoch_secs: number(next_value(args)), ..command }
        } else {
            command
        };
        lemma_absent_refresh_options(next, rest(args, n));
        if !args.contains("--config"@) {
            lemma_rest_keeps_absence(args, n, "--config"@);
        }
        if !args.contains("--fixtures"@) {
            lemma_rest_keeps_absence(args, n, "--fixtures"@);
        }
        if !args.contains("--force"@) {
            lemma_rest_keeps_absence(args, n, "--force"@);
        }
        if !args.contains("--now-epoch-secs"@) {
            lemma_rest_keeps_absence(args, n, "--now-epoch-secs"@);
        }
    }
}

/// An option of a refresh takes the argument behind it and nothing else, and the last of several
/// counts: with `value` behind it, and no more of it further on, it is that value. A time that is no
/// number is none. `--force` alone forces. What is no option is passed over.
pub proof fn lemma_given_refresh_options(
    command: RefreshCommandView,
    value: Seq<char>,
    tail: Seq<Seq<char>>,
    word: Seq<char>,
)
    ensures
        !tail.contains("--config"@) ==> refresh_options(command, seq!["--config"@, value] + tail)
            == (RefreshCommandView { config: Some(value), ..refresh_options(command, tail) }),
        !tail.contains("--fixtures"@) ==> refresh_options(
            command,
            seq!["--fixtures"@, value] + tail,
        ) == (RefreshCommandView { fixtures: Some(value), ..refresh_options(command, tail) }),
        !tail.contains("--now-epoch-secs"@) ==> refresh_options(
            command,
            seq!["--now-epoch-secs"@, value] + tail,
        ) == (RefreshCommandView {
            now_epoch_secs: parsed_u64(value),
            ..refresh_options(command, tail)
        }),
        refresh_options(command, seq!["--force"@] + tail) == (RefreshCommandView {
            force: true,
            ..refresh_options(command, tail)
        }),
        word != "--config"@ && word != "--fixtures"@ && word != "--force"@ && word
            != "--now-epoch-secs"@ ==> refresh_options(command, seq![word] + tail)
            == refresh_options(command, tail),
{
    lemma_option_names();
    let config = seq!["--config"@, value] + tail;
    let fixtures = seq!["--fixtures"@, value] + tail;
    let force = seq!["--force"@] + tail;
    let now = seq!["--now-epoch-secs"@, value] + tail;
    let other = seq![word] + tail;
    assert(rest(config, 2) =~= tail && rest(fixtures, 2) =~= tail && rest(now, 2) =~= tail);
    assert(rest(force, 1) =~= tail && rest(other, 1) =~= tail);
    assert(config[0] == "--config"@ && config[1] == value);
    assert(fixtures[0] == "--fixtures"@ && fixtures[1] == value);
    assert(now[0] == "--now-epoch-secs"@ && now[1] == value);
    assert(force[0] == "--force"@ && other[0] == word);
    let a = RefreshCommandView { config: Some(value), ..command };
    let b = RefreshCommandView { fixtures: Some(value), ..command };
    let c = RefreshCommandView { now_epoch_secs: parsed_u64(value), ..command };
    let d = RefreshCommandView { force: true, ..command };
    lemma_refresh_options_apart(command, a, tail);
    lemma_refresh_options_apart(command, b, tail);
    lemma_refresh_options_apart(command, c, tail);
    lemma_refresh_options_apart(command, d, tail);
    lemma_absent_refresh_options(a, tail);
    lemma_absent_refresh_options(b, tail);
    lemma_absent_refresh_options(c, tail);
    lemma_absent_refresh_options(d, tail);
}

/// Reading options treats each field by itself: where two commands agree in a field before, they
/// agree in it after.
proof fn lemma_refresh_options_apart(
    a: RefreshCommandView,
    b: RefreshCommandView,
    args: Seq<Seq<char>>,
)
    ensures
        a.config == b.config ==> refresh_options(a, args).config == refresh_options(b, args).config,
        a.fixtures == b.fixtures ==> refresh_options(a, args).fixtures == refresh_options(
            b,
            args,
        ).fixtures,
        a.force == b.force ==> refresh_options(a, args).force == refresh_options(b, args).force,
        a.now_epoch_secs == b.now_epoch_secs ==> refresh_options(a, args).now_epoch_secs
            == refresh_options(b, args).now_epoch_secs,
    decreases args.len(),
{
    if args.len() > 0 {
        if args[0] == "--config"@ {
            let value = next_value(args);
            lemma_refresh_options_apart(
                RefreshCommandView { config: value, ..a },
                RefreshCommandView { config: value, ..b },
                rest(args, 2),
            );
        } else if args[0] == "--fixtures"@ {
            let value = next_value(args);
            lemma_refresh_options_apart(
                RefreshCommandView { fixtures: value, ..a },
                RefreshCommandView { fixtures: value, ..b },
                rest(args, 2),
            );
        } else if args[0] == "--force"@ {
            lemma_refresh_options_apart(
                RefreshCommandView { force: true, ..a },
                RefreshCommandView { force: true, ..b },
                rest(args, 1),
            );
        } else if args[0] == "--now-epoch-secs"@ {
            let value = number(next_value(args));
            lemma_refresh_options_apart(
                RefreshCommandView { now_epoch_secs: value, ..a },
                RefreshCommandView { now_epoch_secs: value, ..b },
                rest(args, 2),
            );
        } else {
            lemma_refresh_options_apart(a, b, rest(args, 1));
        }
    }
}

/// A refresh command starts from nothing: not forced, no configuration, no fixtures, no time; the
/// options are read behind the command's name.
pub proof fn lemma_refresh_command(args: Seq<Seq<char>>)
    requires
        args.len() >= 2,
        args[1] == "refresh"@,
    ensures
        parsed_command(args) matches CommandView::Refresh(command) && {
            let given = args.skip(2);
            &&& command == refresh_options(
                RefreshCommandView {
                    config: None,
                    fixtures: None,
                    force: false,
                    now_epoch_secs: None,
                },
                given,
            )
            &&& !given.contains("--force"@) ==> !command.force
            &&& !given.contains("--config"@) ==> command.config is None
            &&& !given.contains("--fixtures"@) ==> command.fixtures is None
            &&& !given.contains("--now-epoch-secs"@) ==> command.now_epoch_secs is None
        },
{
    lemma_commands_by_name(args);
    lemma_absent_refresh_options(
        RefreshCommandView { config: None, fixtures: None, force: false, now_epoch_secs: None },
        args.skip(2),
    );
    reveal_strlit("tui");
    reveal_strlit("profile");
    reveal_strlit("auth");
    reveal_strlit("refresh");
    assert("refresh"@[0] == 'r' && "profile"@[0] == 'p');
    assert("tui"@.len() == 3 && "auth"@.len() == 4 && "refresh"@.len() == 7);
}

/// The options of the doctor and of the panel are read in the same way: one that is not given leaves
/// its field as it is; one that is takes the argument behind it.
pub proof fn lemma_doctor_and_tui_options(
    doctor: DoctorCommandView,
    tui: TuiCommandView,
    value: Seq<char>,
    args: Seq<Seq<char>>,
)
    ensures
        !args.contains("--config"@) ==> doctor_options(doctor, args).config == doctor.config
            && doctor_options(doctor, seq!["--config"@, value] + args).config == Some(value),
        !args.contains("--fixtures"@) ==> doctor_options(doctor, args).fixtures == doctor.fixtures
            && doctor_options(doctor, seq!["--fixtures"@, value] + args).fixtures == Some(value)
            && tui_options(tui, args).fixtures == tui.fixtures && tui_options(
            tui,
            seq!["--fixtures"@, value] + args,
        ).fixtures == Some(value),
{
    lemma_option_names();
    let config = seq!["--config"@, value] + args;
    let fixtures = seq!["--fixtures"@, value] + args;
    assert(rest(config, 2) =~= args && rest(fixtures, 2) =~= args);
    assert(config[0] == "--config"@ && config[1] == value);
    assert(fixtures[0] == "--fixtures"@ && fixtures[1] == value);
    lemma_absent_doctor_options(doctor, args);
    lemma_absent_doctor_options(DoctorCommandView { config: Some(value), ..doctor }, args);
    lemma_absent_doctor_options(DoctorCommandView { fixtures: Some(value), ..doctor }, args);
    if !args.contains("--fixtures"@) {
        lemma_absent_tui_option(tui, args);
        lemma_absent_tui_option(TuiCommandView { fixtures: Some(value) }, args);
    }
}

proof fn lemma_absent_doctor_options(command: DoctorCommandView, args: Seq<Seq<char>>)
    ensures
        !args.contains("--config"@) ==> doctor_options(command, args).config == command.config,
        !args.contains("--fixtures"@) ==> doctor_options(command, args).fixtures
            == command.fixtures,
    decreases args.len(),
{
    lemma_option_names();
    if args.len() > 0 {
        assert(args.contains(args[0]));
        let n: int = if args[0] == "--config"@ || args[0] == "--fixtures"@ {
            2
        } else {
            1
        };
        let next = if args[0] == "--config"@ {
            DoctorCommandView { config: next_value(args), ..command }
        } else if args[0] == "--fixtures"@ {
            DoctorCommandView { fixtures: next_value(args), ..command }
        } else {
            command
        };
        lemma_absent_doctor_options(next, rest(args, n));
        if !args.contains("--config"@) {
            lemma_rest_keeps_absence(args, n, "--config"@);
        }
        if !args.contains("--fixtures"@) {
            lemma_rest_keeps_absence(args, n, "--fixtures"@);
        }
    }
}

proof fn lemma_absent_tui_option(command: TuiCommandView, args: Seq<Seq<char>>)
    requires
        !args.contains("--fixtures"@),
    ensures
        tui_options(command, args) == command,
    decreases args.len(),
{
    if args.len() > 0 {
        assert(args.contains(args[0]));
        lemma_rest_keeps_absence(args, 1, "--fixtures"@);
        lemma_absent_tui_option(command, rest(args, 1));
    }
}

/// The doctor and the panel start from nothing, and their options are read behind the name.
pub proof fn lemma_doctor_and_tui_commands(args: Seq<Seq<char>>)
    requires
        args.len() >= 2,
    ensures
        args[1] == "doctor"@ ==> parsed_command(args) == CommandView::Doctor(
            doctor_options(DoctorCommandView { config: None, fixtures: None }, args.skip(2)),
        ),
        args[1] == "tui"@ ==> parsed_command(args) == CommandView::Tui(
            tui_options(TuiCommandView { fixtures: None }, args.skip(2)),
        ),
{
    reveal_strlit("tui");
    reveal_strlit("profile");
    reveal_strlit("auth");
    reveal_strlit("refresh");
    reveal_strlit("doctor");
    assert("tui"@.len() == 3 && "profile"@.len() == 7 && "auth"@.len() == 4);
    assert("refresh"@.len() == 7 && "doctor"@.len() == 6);
}

/// A profile command says what its flags say: each subcommand takes its own flags, is answered with
/// the help text where one that it needs is missing, and takes what it may lack as missing. An id
/// that stands alone counts for `set-default` and `logout` only, where no `--id` is given.
pub proof fn lemma_profile_flags(args: Seq<Seq<char>>)
    requires
        args.len() >= 3,
        args[1] == "profile"@,
    ensures
        ({
            let given = args.skip(3);
            let flag = |name: Seq<char>| flag_value(given, name);
            let id = flag_value(given, "--id"@);
            let alone = if given.len() > 0 && !(given[0].len() >= 2 && given[0][0] == '-'
                && given[0][1] == '-') {
                Some(given[0])
            } else {
                None
            };
            match parsed_command(args) {
                CommandView::Profile(command) => {
                    &&& command.config == flag("--config"@)
                    &&& match command.action {
                        ProfileCommandActionView::List => args[2] == "list"@,
                        ProfileCommandActionView::Add {
                            profile_id,
                            display_name,
                            auth_mode,
                            account_kind,
                            provider,
                            membership_tier,
                            plan_type,
                        } => {
                            &&& args[2] == "add"@
                            &&& id == Some(profile_id)
                            &&& flag("--name"@) == Some(display_name)
                            &&& flag("--auth-mode"@) == Some(auth_mode)
                            &&& flag("--account-kind"@) == Some(account_kind)
                            &&& flag("--provider"@) == Some(provider)
                            &&& flag("--membership-tier"@) == membership_tier
                            &&& flag("--plan-type"@) == plan_type
                        },
                        ProfileCommandActionView::Edit {
                            profile_id,
                            display_name,
                            refresh_interval_secs,
                            membership_tier,
                            plan_type,
                        } => {
                            &&& args[2] == "edit"@
                            &&& id == Some(profile_id)
                            &&& flag("--name"@) == display_name
                            &&& refresh_interval_secs == (match flag("--refresh-interval-secs"@) {
                                Some(s) => parsed_u64(s),
                                None => None,
                            })
                            &&& flag("--membership-tier"@) == membership_tier
                            &&& flag("--plan-type"@) == plan_type
                        },
                        ProfileCommandActionView::SetDefault { profile_id } => {
                            &&& args[2] == "set-default"@
                            &&& Some(profile_id) == (if id is Some {
                                id
                            } else {
                                alone
                            })
                        },
                        ProfileCommandActionView::Remove { profile_id } => args[2] == "remove"@
                            && id == Some(profile_id),
                        ProfileCommandActionView::Login {
                            profile_id,
                            auth_mode,
                            secret,
                            use_file_store,
                        } => {
                            &&& args[2] == "login"@
                            &&& id == Some(profile_id)
                            &&& flag("--auth-mode"@) == Some(auth_mode)
                            &&& flag("--secret"@) == Some(secret)
                            &&& use_file_store <==> given.contains("--file-store"@)
                        },
                        ProfileCommandActionView::Logout { profile_id } => {
                            &&& args[2] == "logout"@
                            &&& Some(profile_id) == (if id is Some {
                                id
                            } else {
                                alone
                            })
                        },
                    }
                },
                CommandView::Help => {
                    &&& args[2] != "list"@
                    &&& args[2] == "add"@ ==> id is None || flag("--name"@) is None || flag(
                        "--auth-mode"@,
                    ) is None || flag("--account-kind"@) is None || flag("--provider"@) is None
                    &&& args[2] == "edit"@ || args[2] == "remove"@ ==> id is None
                    &&& args[2] == "set-default"@ || args[2] == "logout"@ ==> id is None && alone
                        is None
                    &&& args[2] == "login"@ ==> id is None || flag("--auth-mode"@) is None || flag(
                        "--secret"@,
                    ) is None
                },
                _ => false,
            }
        }),
{
    reveal_strlit("profile");
    reveal_strlit("tui");
    assert("profile"@.len() == 7 && "tui"@.len() == 3);
    assert(args.skip(2).drop_first() =~= args.skip(3));
    assert(args.skip(2)[0] == args[2]);
    let given = args.skip(3);
    reveal_strlit("--");
    let dashes = "--"@;
    assert(dashes.len() == 2 && dashes[0] == '-' && dashes[1] == '-');
    if given.len() > 0 {
        if given[0].len() >= 2 && given[0][0] == '-' && given[0][1] == '-' {
            assert(dashes =~= given[0].take(2));
        }
        if dashes.is_prefix_of(given[0]) {
            assert(dashes == given[0].take(2));
            assert(given[0][0] == dashes[0] && given[0][1] == dashes[1]);
        }
    }
    reveal_strlit("list");
    reveal_strlit("add");
    reveal_strlit("edit");
    reveal_strlit("set-default");
    reveal_strlit("remove");
    reveal_strlit("login");
    reveal_strlit("logout");
    assert("list"@.len() == 4 && "add"@.len() == 3 && "edit"@.len() == 4);
    assert("set-default"@.len() == 11 && "remove"@.len() == 6 && "login"@.len() == 5);
    assert("logout"@.len() == 6);
    assert("list"@[0] == 'l' && "edit"@[0] == 'e' && "remove"@[0] == 'r' && "logout"@[0] == 'l');
}

} // verus!
