//! The panel: which account is selected, what keys do, and what is shown.
use vstd::prelude::*;
use vstd::string::*;

use crate::clock;
use crate::commands::{RefreshCommand, RefreshCommandView};
use crate::refresh::{RefreshState, RefreshedProfile, RefreshedProfileView};
use crate::refresh_cycle::{RefreshCommandError, RefreshRun};
use crate::string_map::lookup;
use crate::text::{self, joined};

verus! {

/// Which details of the selected account are shown.
#[derive(Debug, Clone, Copy, PartialEq, Eq, Structural)]
pub enum DetailView {
    Account,
    Diagnostics,
}

/// The state of the panel.
#[derive(Debug, Clone)]
pub struct TuiModel {
    pub title: String,
    pub state: RefreshState,
    pub selected_profile: usize,
    pub show_help: bool,
    pub now_epoch_secs: u64,
    pub refresh_command: Option<RefreshCommand>,
    pub detail_view: DetailView,
    pub last_refresh_feedback: Option<String>,
}

/// The model of a [`TuiModel`].
#[verifier::ext_equal]
pub struct TuiModelView {
    pub title: Seq<char>,
    pub state: Seq<(Seq<char>, RefreshedProfileView)>,
    pub selected_profile: usize,
    pub show_help: bool,
    pub now_epoch_secs: u64,
    pub refresh_command: Option<RefreshCommandView>,
    pub detail_view: DetailView,
    pub last_refresh_feedback: Option<Seq<char>>,
}

impl View for TuiModel {
    type V = TuiModelView;

    open spec fn view(&self) -> TuiModelView {
        TuiModelView {
            title: self.title@,
            state: self.state@,
            selected_profile: self.selected_profile,
            show_help: self.show_help,
            now_epoch_secs: self.now_epoch_secs,
            refresh_command: self.refresh_command.deep_view(),
            detail_view: self.detail_view,
            last_refresh_feedback: self.last_refresh_feedback.deep_view(),
        }
    }
}

/// The latest time at which one of the profiles was updated.
pub open spec fn latest_update(entries: Seq<(Seq<char>, RefreshedProfileView)>) -> Option<u64>
    decreases entries.len(),
{
    if entries.len() == 0 {
        None
    } else {
        match (latest_update(entries.drop_last()), entries.last().1.last_updated_at) {
            (Some(a), Some(b)) => Some(if a < b {
                b
            } else {
                a
            }),
            (Some(a), None) => Some(a),
            (None, last) => last,
        }
    }
}

/// The latest time at which one of the profiles was updated, if one was.
pub fn latest_update_secs(state: &RefreshState) -> (r: Option<u64>)
    ensures
        r == latest_update(state@),
{
    let ghost all = state@;
    let mut latest: Option<u64> = None;
    let mut i: usize = 0;
    assert(all.take(0).len() == 0);
    while i < state.profiles.len()
        invariant
            i <= all.len(),
            all == state.profiles@,
            latest == latest_update(all.take(i as int)),
        decreases all.len() - i,
    {
        let known = state.profiles.value_at(i);
        latest = match (latest, known.last_updated_at) {
            (Some(a), Some(b)) => Some(if a < b { b } else { a }),
            (Some(a), None) => Some(a),
            (None, last) => last,
        };
        i = i + 1;
        assert(all.take(i as int).drop_last() =~= all.take(i - 1));
        assert(all.take(i as int).last() == all[i - 1]);
    }
    assert(all.take(i as int) =~= all);
    latest
}

/// The time that the ages are told against, given the time of day.
pub open spec fn told_against(
    state: Seq<(Seq<char>, RefreshedProfileView)>,
    current_epoch_secs: u64,
) -> u64 {
    match latest_update(state) {
        Some(latest) => latest,
        None => current_epoch_secs,
    }
}

/// The time that the ages are told against: that of the latest update, or else the time of day.
pub fn infer_now_epoch_secs(state: &RefreshState, current_epoch_secs: u64) -> (r: u64)
    ensures
        r == told_against(state@, current_epoch_secs),
{
    match latest_update_secs(state) {
        Some(latest) => latest,
        None => current_epoch_secs,
    }
}

/// The position to select among `len` profiles: that of the profile with the id, else the old
/// one, or the last where there are fewer.
pub open spec fn synced(
    state: Seq<(Seq<char>, RefreshedProfileView)>,
    selected: usize,
    selected_id: Option<Seq<char>>,
    position: usize,
) -> bool {
    if selected_id is Some && exists|i: int|
        0 <= i < state.len() && (#[trigger] state[i]).0 == selected_id.unwrap() {
        position < state.len() && state[position as int].0 == selected_id.unwrap()
    } else if state.len() == 0 {
        position == 0
    } else {
        position == (if selected < state.len() {
            selected as int
        } else {
            state.len() - 1
        })
    }
}

/// A key that the panel may be told of.
#[derive(Debug, Clone, Copy, PartialEq, Eq, Structural)]
pub enum Key {
    Char(char),
    Down,
    Up,
    Other,
}

/// What is left to do after a key.
#[derive(Debug, Clone, Copy, PartialEq, Eq, Structural)]
pub enum KeyOutcome {
    Continue,
    Refresh,
    Quit,
}

/// The panel after the next account has been selected.
pub open spec fn moved_next(model: TuiModelView) -> TuiModelView {
    TuiModelView {
        selected_profile: if model.state.len() == 0 {
            0
        } else {
            ((model.selected_profile + 1) % model.state.len() as int) as usize
        },
        ..model
    }
}

/// The panel after the previous account has been selected.
pub open spec fn moved_previous(model: TuiModelView) -> TuiModelView {
    TuiModelView {
        selected_profile: if model.state.len() == 0 {
            0
        } else if model.selected_profile == 0 {
            (model.state.len() - 1) as usize
        } else {
            (model.selected_profile - 1) as usize
        },
        ..model
    }
}

/// The panel after a key, and what is left to do.
pub open spec fn after_key(model: TuiModelView, key: Key) -> (TuiModelView, KeyOutcome) {
    match key {
        Key::Char('q') => (model, KeyOutcome::Quit),
        Key::Char('j') => (moved_next(model), KeyOutcome::Continue),
        Key::Down => (moved_next(model), KeyOutcome::Continue),
        Key::Char('k') => (moved_previous(model), KeyOutcome::Continue),
        Key::Up => (moved_previous(model), KeyOutcome::Continue),
        Key::Char('a') => (
            TuiModelView { detail_view: DetailView::Account, ..model },
            KeyOutcome::Continue,
        ),
        Key::Char('d') => (
            TuiModelView { detail_view: DetailView::Diagnostics, ..model },
            KeyOutcome::Continue,
        ),
        Key::Char('?') => (
            TuiModelView { show_help: !model.show_help, ..model },
            KeyOutcome::Continue,
        ),
        Key::Char('r') => (model, KeyOutcome::Refresh),
        _ => (model, KeyOutcome::Continue),
    }
}

/// A panel that shows the first account of a state.
pub open spec fn new_panel(
    title: Seq<char>,
    state: Seq<(Seq<char>, RefreshedProfileView)>,
    now_epoch_secs: u64,
) -> TuiModelView {
    TuiModelView {
        title,
        state,
        selected_profile: 0,
        show_help: false,
        now_epoch_secs,
        refresh_command: None,
        detail_view: DetailView::Account,
        last_refresh_feedback: None,
    }
}

/// The panel with a command for its refreshes.
pub open spec fn with_command(model: TuiModelView, command: Option<RefreshCommandView>) -> TuiModelView {
    TuiModelView {
        now_epoch_secs: match command {
            Some(command) => match command.now_epoch_secs {
                Some(now) => now,
                None => model.now_epoch_secs,
            },
            None => model.now_epoch_secs,
        },
        refresh_command: command,
        ..model
    }
}

/// The panel when a refresh begins, and the command that it runs.
pub open spec fn begun(model: TuiModelView, current_epoch_secs: u64) -> (
    TuiModelView,
    Option<RefreshCommandView>,
) {
    match model.refresh_command {
        Some(command) => {
            let later = if model.now_epoch_secs < current_epoch_secs {
                current_epoch_secs
            } else {
                model.now_epoch_secs
            };
            let now = match command.now_epoch_secs {
                Some(now) => now,
                None => later,
            };
            (model, Some(RefreshCommandView { now_epoch_secs: Some(now), ..command }))
        },
        None => (
            TuiModelView {
                last_refresh_feedback: Some(
                    "refresh unavailable: no fixture/config refresh source configured"@,
                ),
                ..model
            },
            None,
        ),
    }
}

/// The panel after a run that ended, with `position` selected.
pub open spec fn taken_over(
    model: TuiModelView,
    state: Seq<(Seq<char>, RefreshedProfileView)>,
    now_epoch_secs: u64,
    profile_lines: Seq<(Seq<char>, Seq<char>)>,
    lines: Seq<Seq<char>>,
    position: usize,
) -> TuiModelView {
    let own = if model.selected_profile < model.state.len() {
        lookup(profile_lines, model.state[model.selected_profile as int].0)
    } else {
        None
    };
    TuiModelView {
        state,
        now_epoch_secs,
        selected_profile: position,
        last_refresh_feedback: Some(
            match own {
                Some(line) => line,
                None => joined(lines),
            },
        ),
        ..model
    }
}

impl TuiModel {
    /// A panel on a state at a time of day: the first account is selected.
    pub fn new_at(title: &str, state: RefreshState, current_epoch_secs: u64) -> (r: Self)
        ensures
            r@ == new_panel(title@, state@, told_against(state@, current_epoch_secs)),
    {
        let now_epoch_secs = infer_now_epoch_secs(&state, current_epoch_secs);
        TuiModel {
            title: title.to_owned(),
            now_epoch_secs,
            state,
            selected_profile: 0,
            show_help: false,
            refresh_command: None,
            detail_view: DetailView::Account,
            last_refresh_feedback: None,
        }
    }

    /// A panel on a state, now.
    pub fn new(title: &str, state: RefreshState) -> (r: Self)
        ensures
            exists|now: u64| #[trigger]
                call_ensures(clock::current_epoch_secs, (), now) && r@ == new_panel(
                    title@,
                    state@,
                    told_against(state@, now),
                ),
    {
        let now: u64 = clock::current_epoch_secs();
        assert(call_ensures(clock::current_epoch_secs, (), now));
        TuiModel::new_at(title, state, now)
    }

    /// The panel with the command that a refresh runs; a time that the command names is taken for
    /// the present one.
    pub fn with_refresh_command(self, refresh_command: Option<RefreshCommand>) -> (r: Self)
        ensures
            r@ == (TuiModelView {
                now_epoch_secs: match refresh_command.deep_view() {
                    Some(command) if command.now_epoch_secs is Some =>
                        command.now_epoch_secs.unwrap(),
                    _ => self@.now_epoch_secs,
                },
                refresh_command: refresh_command.deep_view(),
                ..self@
            }),
            r@ == with_command(self@, refresh_command.deep_view()),
    {
        let mut model = self;
        if let Some(command) = &refresh_command {
            if let Some(now) = command.now_epoch_secs {
                model.now_epoch_secs = now;
            }
        }
        model.refresh_command = refresh_command;
        model
    }

    /// The selected account.
    pub fn selected_profile(&self) -> (r: Option<&RefreshedProfile>)
        ensures
            r.deep_view() == (if self@.selected_profile < self@.state.len() {
                Some(self@.state[self@.selected_profile as int].1)
            } else {
                None
            }),
    {
        if self.selected_profile < self.state.profiles.len() {
            Some(self.state.profiles.value_at(self.selected_profile))
        } else {
            None
        }
    }

    fn selected_profile_id(&self) -> (r: Option<String>)
        ensures
            r.deep_view() == (if self@.selected_profile < self@.state.len() {
                Some(self@.state[self@.selected_profile as int].0)
            } else {
                None
            }),
    {
        if self.selected_profile < self.state.profiles.len() {
            Some(self.state.profiles.key_at(self.selected_profile).clone())
        } else {
            None
        }
    }

    /// Selects the next account; behind the last comes the first.
    pub fn next(&mut self)
        requires
            old(self)@.state.len() > 0 ==> old(self)@.selected_profile < usize::MAX,
        ensures
            final(self)@ == moved_next(old(self)@),
    {
        let len = self.state.profiles.len();
        if len == 0 {
            self.selected_profile = 0;
        } else {
            self.selected_profile = (self.selected_profile + 1) % len;
        }
    }

    /// Selects the previous account; before the first comes the last.
    pub fn previous(&mut self)
        ensures
            final(self)@ == moved_previous(old(self)@),
    {
        let len = self.state.profiles.len();
        if len == 0 {
            self.selected_profile = 0;
        } else if self.selected_profile == 0 {
            self.selected_profile = len - 1;
        } else {
            self.selected_profile = self.selected_profile - 1;
        }
    }

    pub fn toggle_help(&mut self)
        ensures
            final(self)@ == (TuiModelView { show_help: !old(self)@.show_help, ..old(self)@ }),
    {
        self.show_help = !self.show_help;
    }

    pub fn show_account_view(&mut self)
        ensures
            final(self)@ == (TuiModelView { detail_view: DetailView::Account, ..old(self)@ }),
    {
        self.detail_view = DetailView::Account;
    }

    pub fn show_diagnostics_view(&mut self)
        ensures
            final(self)@ == (TuiModelView { detail_view: DetailView::Diagnostics, ..old(self)@ }),
    {
        self.detail_view = DetailView::Diagnostics;
    }

    /// Changes the panel as a key asks for, and says what is left to do.
    pub fn handle_key(&mut self, key: Key) -> (r: KeyOutcome)
        requires
            key == Key::Char('j') || key == Key::Down ==> old(self)@.state.len() > 0
                ==> old(self)@.selected_profile < usize::MAX,
        ensures
            (final(self)@, r) == after_key(old(self)@, key),
    {
        match key {
            Key::Char('q') => KeyOutcome::Quit,
            Key::Char('j') => {
                self.next();
                KeyOutcome::Continue
            },
            Key::Down => {
                self.next();
                KeyOutcome::Continue
            },
            Key::Char('k') => {
                self.previous();
                KeyOutcome::Continue
            },
            Key::Up => {
                self.previous();
                KeyOutcome::Continue
            },
            Key::Char('a') => {
                self.show_account_view();
                KeyOutcome::Continue
            },
            Key::Char('d') => {
                self.show_diagnostics_view();
                KeyOutcome::Continue
            },
            Key::Char('?') => {
                self.toggle_help();
                KeyOutcome::Continue
            },
            Key::Char('r') => KeyOutcome::Refresh,
            _ => KeyOutcome::Continue,
        }
    }

    /// The command that a refresh is to run, at the later of the panel's time and the time of
    /// day unless it names a time itself. Where there is none, the panel says so.
    pub fn begin_refresh(&mut self, current_epoch_secs: u64) -> (r: Option<RefreshCommand>)
        ensures
            match old(self)@.refresh_command {
                None => r is None && final(self)@ == (TuiModelView {
                    last_refresh_feedback: Some(
                        "refresh unavailable: no fixture/config refresh source configured"@,
                    ),
                    ..old(self)@
                }),
                Some(command) => final(self)@ == old(self)@ && r.deep_view() == Some(
                    RefreshCommandView {
                        now_epoch_secs: Some(
                            match command.now_epoch_secs {
                                Some(now) => now,
                                None => if old(self)@.now_epoch_secs < current_epoch_secs {
                                    current_epoch_secs
                                } else {
                                    old(self)@.now_epoch_secs
                                },
                            },
                        ),
                        ..command
                    },
                ),
            },
            (final(self)@, r.deep_view()) == begun(old(self)@, current_epoch_secs),
    {
        match &self.refresh_command {
            None => {
                self.last_refresh_feedback = Some(
                    "refresh unavailable: no fixture/config refresh source configured".to_owned(),
                );
                None
            },
            Some(command) => {
                let mut command = command.clone();
                if command.now_epoch_secs.is_none() {
                    command.now_epoch_secs = Some(
                        if self.now_epoch_secs < current_epoch_secs {
                            current_epoch_secs
                        } else {
                            self.now_epoch_secs
                        },
                    );
                }
                Some(command)
            },
        }
    }

    /// Takes over what a refresh came to: its state and its time, the same account selected as
    /// before where it is still there, and the line on that account, or else all lines, as
    /// feedback. A refresh that failed changes the feedback only.
    pub fn refresh_selected(&mut self, result: Result<RefreshRun, RefreshCommandError>)
        ensures
            match result {
                Err(error) => final(self)@ == (TuiModelView {
                    last_refresh_feedback: Some("refresh failed: "@ + error@.text()),
                    ..old(self)@
                }),
                Ok(run) => {
                    let selected_id = if old(self)@.selected_profile < old(self)@.state.len() {
                        Some(old(self)@.state[old(self)@.selected_profile as int].0)
                    } else {
                        None
                    };
                    let own_line = if selected_id is Some {
                        lookup(run.profile_lines@, selected_id.unwrap())
                    } else {
                        None
                    };
                    &&& final(self)@ == (TuiModelView {
                        now_epoch_secs: run.now_epoch_secs,
                        state: run.state@,
                        selected_profile: final(self)@.selected_profile,
                        last_refresh_feedback: Some(
                            match own_line {
                                Some(line) => line,
                                None => joined(run.output.lines.deep_view()),
                            },
                        ),
                        ..old(self)@
                    })
                    &&& synced(
                        run.state@,
                        old(self)@.selected_profile,
                        selected_id,
                        final(self)@.selected_profile,
                    )
                },
            },
            result matches Ok(run) ==> final(self)@ == taken_over(
                old(self)@,
                run.state@,
                run.now_epoch_secs,
                run.profile_lines@,
                run.output.lines.deep_view(),
                final(self)@.selected_profile,
            ),
    {
        let selected_id = self.selected_profile_id();
        match result {
            Ok(run) => {
                let own_line: Option<String> = match &selected_id {
                    Some(id) => match run.profile_lines.get(id.as_str()) {
                        Some(line) => Some(line.clone()),
                        None => None,
                    },
                    None => None,
                };
                self.last_refresh_feedback = match own_line {
                    Some(line) => Some(line),
                    None => Some(run.output.render()),
                };
                self.now_epoch_secs = run.now_epoch_secs;
                self.state = run.state;
                self.sync_selected_profile(&selected_id);
            },
            Err(error) => {
                let detail = error.message();
                self.last_refresh_feedback = Some(
                    text::concat("refresh failed: ", detail.as_str()),
                );
            },
        }
    }

    fn sync_selected_profile(&mut self, selected_id: &Option<String>)
        ensures
            final(self)@ == (TuiModelView {
                selected_profile: final(self)@.selected_profile,
                ..old(self)@
            }),
            synced(
                old(self)@.state,
                old(self)@.selected_profile,
                selected_id.deep_view(),
                final(self)@.selected_profile,
            ),
    {
        if let Some(id) = selected_id {
            if let Some(index) = self.state.profiles.position(id.as_str()) {
                self.selected_profile = index;
                return;
            }
        }
        let len = self.state.profiles.len();
        if len == 0 {
            self.selected_profile = 0;
        } else if self.selected_profile >= len {
            self.selected_profile = len - 1;
        }
    }
}

/// The panel of a fixture: its state, and the command that a refresh runs.
#[derive(Debug)]
pub struct LoadedTuiFixture {
    pub state: RefreshState,
    pub refresh_command: Option<RefreshCommand>,
}

/// Why the panel failed; what the system or a reader reports is kept as its text.
#[derive(Debug, PartialEq, Eq)]
pub enum TuiError {
    Io(String),
    Fixture(String),
}

/// The model of a [`TuiError`].
#[verifier::ext_equal]
pub enum TuiErrorView {
    Io(Seq<char>),
    Fixture(Seq<char>),
}

impl View for TuiError {
    type V = TuiErrorView;

    open spec fn view(&self) -> TuiErrorView {
        match *self {
            TuiError::Io(s) => TuiErrorView::Io(s@),
            TuiError::Fixture(s) => TuiErrorView::Fixture(s@),
        }
    }
}

impl TuiError {
    /// The text of the error.
    pub fn message(&self) -> (r: String)
        ensures
            r@ == (match self@ {
                TuiErrorView::Io(s) => "io failure: "@ + s,
                TuiErrorView::Fixture(s) => "fixture parse failure: "@ + s,
            }),
    {
        match self {
            TuiError::Io(s) => text::concat("io failure: ", s.as_str()),
            TuiError::Fixture(s) => text::concat("fixture parse failure: ", s.as_str()),
        }
    }
}

/// The fixture as it was read; where reading failed, the reader's text becomes the error.
pub fn load_fixture(read: Result<LoadedTuiFixture, String>) -> (r: Result<
    LoadedTuiFixture,
    TuiError,
>)
    ensures
        match (r, read) {
            (Ok(loaded), Ok(fixture)) => loaded == fixture,
            (Err(error), Err(text)) => error@ == TuiErrorView::Fixture(text@),
            _ => false,
        },
{
    match read {
        Ok(fixture) => Ok(fixture),
        Err(text) => Err(TuiError::Fixture(text)),
    }
}

/// The state of the fixture as it was read.
pub fn load_fixture_state(read: Result<LoadedTuiFixture, String>) -> (r: Result<
    RefreshState,
    TuiError,
>)
    ensures
        match (r, read) {
            (Ok(state), Ok(fixture)) => state == fixture.state,
            (Err(error), Err(text)) => error@ == TuiErrorView::Fixture(text@),
            _ => false,
        },
{
    match load_fixture(read) {
        Ok(fixture) => Ok(fixture.state),
        Err(error) => Err(error),
    }
}

/// Whether the selection names an account, or the first place where there is none.
pub open spec fn selection_in_range(model: TuiModelView) -> bool {
    if model.state.len() == 0 {
        model.selected_profile == 0
    } else {
        model.selected_profile < model.state.len()
    }
}

/// No key moves the selection out of its range.
pub proof fn lemma_selection_stays_in_range(model: TuiModelView, key: Key)
    requires
        selection_in_range(model),
        model.state.len() <= usize::MAX,
    ensures
        selection_in_range(after_key(model, key).0),
{
    if model.state.len() > 0 {
        let n = model.state.len() as int;
        assert(0 <= (model.selected_profile + 1) % n < n);
    }
}

/// Selecting the next account and then the previous one, or the other way round, comes back to
/// the same account.
pub proof fn lemma_next_and_previous(model: TuiModelView)
    requires
        selection_in_range(model),
        model.state.len() <= usize::MAX,
    ensures
        moved_previous(moved_next(model)) == model,
        moved_next(moved_previous(model)) == model,
{
    if model.state.len() > 0 {
        let n = model.state.len() as int;
        let s = model.selected_profile as int;
        if s + 1 < n {
            assert((s + 1) % n == s + 1) by (nonlinear_arith)
                requires
                    0 <= s + 1 < n,
            ;
        } else {
            assert((s + 1) % n == 0) by (nonlinear_arith)
                requires
                    s + 1 == n,
                    n > 0,
            ;
        }
        assert(s % n == s) by (nonlinear_arith)
            requires
                0 <= s < n,
        ;
        assert(n % n == 0) by (nonlinear_arith)
            requires
                n > 0,
        ;
    }
}

/// A key that is not bound changes nothing.
pub proof fn lemma_unbound_keys(model: TuiModelView, c: char)
    requires
        c != 'q' && c != 'j' && c != 'k' && c != 'a' && c != 'd' && c != '?' && c != 'r',
    ensures
        after_key(model, Key::Char(c)) == (model, KeyOutcome::Continue),
        after_key(model, Key::Other) == (model, KeyOutcome::Continue),
{
}

/// The latest update is that of an account, and no account was updated later; there is none only
/// where no account was ever updated.
pub proof fn lemma_latest_update(entries: Seq<(Seq<char>, RefreshedProfileView)>)
    ensures
        match latest_update(entries) {
            Some(latest) => {
                &&& exists|i: int|
                    0 <= i < entries.len() && (#[trigger] entries[i]).1.last_updated_at == Some(
                        latest,
                    )
                &&& forall|i: int|
                    0 <= i < entries.len() ==> ((#[trigger] entries[i]).1.last_updated_at matches Some(
                        last,
                    ) ==> last <= latest)
            },
            None => forall|i: int|
                0 <= i < entries.len() ==> (#[trigger] entries[i]).1.last_updated_at is None,
        },
    decreases entries.len(),
{
    if entries.len() > 0 {
        let rest = entries.drop_last();
        lemma_latest_update(rest);
        let last = entries[entries.len() - 1].1.last_updated_at;
        assert(forall|i: int| 0 <= i < rest.len() ==> #[trigger] entries[i] == rest[i]);
        if let Some(before) = latest_update(rest) {
            let k = choose|i: int|
                0 <= i < rest.len() && (#[trigger] rest[i]).1.last_updated_at == Some(before);
            assert(entries[k].1.last_updated_at == Some(before));
        }
    }
}

/// The ages are told against the latest update, so that none lies ahead, or against the time of day
/// where no account was ever updated.
pub proof fn lemma_told_against(
    state: Seq<(Seq<char>, RefreshedProfileView)>,
    current_epoch_secs: u64,
    i: int,
)
    requires
        0 <= i < state.len(),
    ensures
        state[i].1.last_updated_at matches Some(last) ==> last <= told_against(
            state,
            current_epoch_secs,
        ),
        (forall|j: int| 0 <= j < state.len() ==> (#[trigger] state[j]).1.last_updated_at is None)
            ==> told_against(state, current_epoch_secs) == current_epoch_secs,
{
    lemma_latest_update(state);
}

/// A new panel shows the details of the first account, without help, command or feedback.
pub proof fn lemma_new_panel(
    title: Seq<char>,
    state: Seq<(Seq<char>, RefreshedProfileView)>,
    now_epoch_secs: u64,
)
    ensures
        ({
            let model = new_panel(title, state, now_epoch_secs);
            &&& model.title == title
            &&& model.state == state
            &&& model.now_epoch_secs == now_epoch_secs
            &&& model.selected_profile == 0
            &&& !model.show_help
            &&& model.detail_view is Account
            &&& model.refresh_command is None
            &&& model.last_refresh_feedback is None
        }),
{
}

/// What each key does. The keys for the next and the previous account move the selection by one,
/// round at either end; the keys for the two views and for the help change those; none of them
/// changes anything else. One key asks for a refresh, one to quit, and no other does.
pub proof fn lemma_keys(model: TuiModelView, key: Key)
    requires
        selection_in_range(model),
        model.state.len() <= usize::MAX,
    ensures
        ({
            let (after, outcome) = after_key(model, key);
            let n = model.state.len() as int;
            let s = model.selected_profile as int;
            let next = key == Key::Char('j') || key == Key::Down;
            let previous = key == Key::Char('k') || key == Key::Up;
            &&& outcome is Quit <==> key == Key::Char('q')
            &&& outcome is Refresh <==> key == Key::Char('r')
            &&& after.title == model.title
            &&& after.state == model.state
            &&& after.now_epoch_secs == model.now_epoch_secs
            &&& after.refresh_command == model.refresh_command
            &&& after.last_refresh_feedback == model.last_refresh_feedback
            &&& after.show_help == (if key == Key::Char('?') {
                !model.show_help
            } else {
                model.show_help
            })
            &&& after.detail_view == (if key == Key::Char('a') {
                DetailView::Account
            } else if key == Key::Char('d') {
                DetailView::Diagnostics
            } else {
                model.detail_view
            })
            &&& after.selected_profile == (if next && n > 0 {
                if s + 1 == n {
                    0
                } else {
                    s + 1
                }
            } else if previous && n > 0 {
                if s == 0 {
                    n - 1
                } else {
                    s - 1
                }
            } else {
                s
            })
        }),
{
    let n = model.state.len() as int;
    let s = model.selected_profile as int;
    if n > 0 {
        if s + 1 < n {
            assert((s + 1) % n == s + 1) by (nonlinear_arith)
                requires
                    0 <= s + 1 < n,
            ;
        } else {
            assert((s + 1) % n == 0) by (nonlinear_arith)
                requires
                    s + 1 == n,
                    n > 0,
            ;
        }
    }
}

/// After a refresh the same account is selected as before where it is still there, else one that is,
/// the same place where there is one.
pub proof fn lemma_selection_after_a_refresh(
    state: Seq<(Seq<char>, RefreshedProfileView)>,
    selected: usize,
    id: Seq<char>,
    position: usize,
)
    requires
        synced(state, selected, Some(id), position),
    ensures
        state.len() > 0 ==> position < state.len(),
        state.len() == 0 ==> position == 0,
        (exists|i: int| 0 <= i < state.len() && (#[trigger] state[i]).0 == id)
            ==> state[position as int].0 == id,
        (forall|i: int| 0 <= i < state.len() ==> (#[trigger] state[i]).0 != id) && selected
            < state.len() ==> position == selected,
{
}

/// A run that ended gives the panel its state and its time; the feedback is the line on the account
/// that was selected, where there is one, and else all lines. Title, views, help and command stay.
pub proof fn lemma_taken_over(
    model: TuiModelView,
    state: Seq<(Seq<char>, RefreshedProfileView)>,
    now_epoch_secs: u64,
    profile_lines: Seq<(Seq<char>, Seq<char>)>,
    lines: Seq<Seq<char>>,
    position: usize,
)
    requires
        model.selected_profile < model.state.len(),
    ensures
        ({
            let after = taken_over(model, state, now_epoch_secs, profile_lines, lines, position);
            let id = model.state[model.selected_profile as int].0;
            &&& after.state == state
            &&& after.now_epoch_secs == now_epoch_secs
            &&& after.selected_profile == position
            &&& lookup(profile_lines, id) is Some ==> after.last_refresh_feedback == lookup(
                profile_lines,
                id,
            )
            &&& lookup(profile_lines, id) is None ==> after.last_refresh_feedback == Some(
                joined(lines),
            )
            &&& after.title == model.title
            &&& after.show_help == model.show_help
            &&& after.detail_view == model.detail_view
            &&& after.refresh_command == model.refresh_command
        }),
{
}

/// A refresh runs the panel's own command: at the time that the command names, else at the later of
/// the panel's time and the time of day, and changes nothing yet. A panel without a command says that
/// there is none, and runs nothing.
pub proof fn lemma_begun(model: TuiModelView, current_epoch_secs: u64)
    ensures
        ({
            let (after, run) = begun(model, current_epoch_secs);
            match (model.refresh_command, run) {
                (Some(command), Some(given)) => {
                    &&& after == model
                    &&& given.config == command.config
                    &&& given.fixtures == command.fixtures
                    &&& given.force == command.force
                    &&& command.now_epoch_secs is Some ==> given.now_epoch_secs
                        == command.now_epoch_secs
                    &&& command.now_epoch_secs is None ==> (given.now_epoch_secs matches Some(now)
                        && now >= current_epoch_secs && now >= model.now_epoch_secs && (now
                        == current_epoch_secs || now == model.now_epoch_secs))
                },
                (None, None) => {
                    &&& after.last_refresh_feedback == Some(
                        "refresh unavailable: no fixture/config refresh source configured"@,
                    )
                    &&& after == (TuiModelView {
                        last_refresh_feedback: after.last_refresh_feedback,
                        ..model
                    })
                },
                _ => false,
            }
        }),
{
}

/// A panel takes the time that its command names for the present one, and keeps its own where the
/// command names none; nothing else of it changes.
pub proof fn lemma_with_command(model: TuiModelView, command: Option<RefreshCommandView>)
    ensures
        ({
            let after = with_command(model, command);
            &&& after.refresh_command == command
            &&& match command {
                Some(given) if given.now_epoch_secs is Some => Some(after.now_epoch_secs)
                    == given.now_epoch_secs,
                _ => after.now_epoch_secs == model.now_epoch_secs,
            }
            &&& after == (TuiModelView {
                now_epoch_secs: after.now_epoch_secs,
                refresh_command: command,
                ..model
            })
        }),
{
}

} // verus!
