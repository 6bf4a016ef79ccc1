//! The application state machine: the network list and its selection cursor,
//! the associated network, password entry, and the speed test's progress.
//!
//! Every change goes through [`AppState::handle_intent`], which returns the
//! platform action that the caller is to perform. The caller then hands the
//! outcome back ([`AppState::refresh`], [`AppState::finish_speed_test`]).
use vstd::prelude::*;
use crate::parser::{views, NetworkView, WifiInfo};
use crate::text::{pop_char, push_char};
use vstd::arithmetic::div_mod::{lemma_mod_adds, lemma_mod_bound, lemma_mod_self_0, lemma_small_mod};

verus! {

/// An input, in terms of what it asks for rather than which key gave it.
#[derive(Clone, Copy, Debug, PartialEq, Eq, Structural)]
pub enum Intent {
    SelectNext,
    SelectPrevious,
    Activate,
    TextInput(char),
    Backspace,
    Confirm,
    Cancel,
    StartSpeedTest,
    Quit,
}

/// A key press, as far as the application distinguishes keys.
#[derive(Clone, Copy, Debug, PartialEq, Eq, Structural)]
pub enum Key {
    Char(char),
    Enter,
    Backspace,
    Esc,
    Up,
    Down,
    Other,
}

/// Whether input is routed to navigation or to the password being typed.
#[derive(Debug)]
pub enum Mode {
    Browsing,
    PasswordEntry { target_ssid: String, buffer: String },
}

/// Progress of the download-speed measurement.
#[derive(Debug)]
pub enum SpeedTest {
    Idle,
    Running,
    Done(String),
}

/// What the caller is to do after a transition.
#[derive(Debug)]
pub enum Action {
    Nothing,
    Quit,
    Disconnect,
    ConnectOpen(String),
    ConnectSecured { ssid: String, password: String },
    MeasureSpeed,
}

#[derive(Debug)]
pub struct AppState {
    pub wifi_list: Vec<WifiInfo>,
    pub selected: Option<usize>,
    pub connected_ssid: Option<String>,
    pub mode: Mode,
    pub speed_test: SpeedTest,
}

pub enum ModeView {
    Browsing,
    PasswordEntry { target: Seq<char>, buffer: Seq<char> },
}

pub enum SpeedView {
    Idle,
    Running,
    Done(Seq<char>),
}

pub enum ActionView {
    Nothing,
    Quit,
    Disconnect,
    ConnectOpen(Seq<char>),
    ConnectSecured(Seq<char>, Seq<char>),
    MeasureSpeed,
}

pub struct AppView {
    pub networks: Seq<NetworkView>,
    pub selected: Option<nat>,
    pub connected: Option<Seq<char>>,
    pub mode: ModeView,
    pub speed: SpeedView,
}

pub open spec fn opt_view(o: Option<String>) -> Option<Seq<char>> {
    match o {
        Some(s) => Some(s@),
        None => None,
    }
}

impl View for Mode {
    type V = ModeView;

    open spec fn view(&self) -> ModeView {
        match self {
            Mode::Browsing => ModeView::Browsing,
            Mode::PasswordEntry { target_ssid, buffer } => ModeView::PasswordEntry {
                target: target_ssid@,
                buffer: buffer@,
            },
        }
    }
}

impl View for SpeedTest {
    type V = SpeedView;

    open spec fn view(&self) -> SpeedView {
        match self {
            SpeedTest::Idle => SpeedView::Idle,
            SpeedTest::Running => SpeedView::Running,
            SpeedTest::Done(s) => SpeedView::Done(s@),
        }
    }
}

impl View for Action {
    type V = ActionView;

    open spec fn view(&self) -> ActionView {
        match self {
            Action::Nothing => ActionView::Nothing,
            Action::Quit => ActionView::Quit,
            Action::Disconnect => ActionView::Disconnect,
            Action::ConnectOpen(s) => ActionView::ConnectOpen(s@),
            Action::ConnectSecured { ssid, password } => ActionView::ConnectSecured(
                ssid@,
                password@,
            ),
            Action::MeasureSpeed => ActionView::MeasureSpeed,
        }
    }
}

impl View for AppState {
    type V = AppView;

    open spec fn view(&self) -> AppView {
        AppView {
            networks: views(self.wifi_list@),
            selected: match self.selected {
                Some(i) => Some(i as nat),
                None => None,
            },
            connected: opt_view(self.connected_ssid),
            mode: self.mode@,
            speed: self.speed_test@,
        }
    }
}

/// The selection is a valid index exactly when the list is non-empty.
pub open spec fn selection_ok(selected: Option<nat>, len: nat) -> bool {
    match selected {
        Some(i) => i < len,
        None => len == 0,
    }
}

impl AppView {
    pub open spec fn wf(self) -> bool {
        selection_ok(self.selected, self.networks.len())
    }
}

/// The authentication value of a network that needs no credential.
pub open spec fn open_auth() -> Seq<char> {
    seq!['O', 'p', 'e', 'n']
}

pub open spec fn next_index(selected: Option<nat>, len: nat) -> Option<nat> {
    match selected {
        Some(i) => if len > 0 { Some((((i as int) + 1) % (len as int)) as nat) } else { selected },
        None => selected,
    }
}

pub open spec fn previous_index(selected: Option<nat>, len: nat) -> Option<nat> {
    match selected {
        Some(i) => if len > 0 { Some((((i as int) + (len as int) - 1) % (len as int)) as nat) } else { selected },
        None => selected,
    }
}

/// The selection kept across a refresh: the same index while it is still in
/// the list, else the last entry, else none.
pub open spec fn kept_index(selected: Option<nat>, len: nat) -> Option<nat> {
    if len == 0 {
        None
    } else {
        match selected {
            Some(i) => if i < len { Some(i) } else { Some((len - 1) as nat) },
            None => Some(0),
        }
    }
}

/// The intent that `key` stands for in the given mode.
pub open spec fn intent_of(entering: bool, key: Key) -> Option<Intent> {
    if entering {
        match key {
            Key::Enter => Some(Intent::Confirm),
            Key::Char(c) => Some(Intent::TextInput(c)),
            Key::Backspace => Some(Intent::Backspace),
            Key::Esc => Some(Intent::Cancel),
            _ => None,
        }
    } else {
        match key {
            Key::Esc | Key::Char('q') => Some(Intent::Quit),
            Key::Char('j') | Key::Down => Some(Intent::SelectNext),
            Key::Char('k') | Key::Up => Some(Intent::SelectPrevious),
            Key::Enter => Some(Intent::Activate),
            Key::Char('s') => Some(Intent::StartSpeedTest),
            _ => None,
        }
    }
}

/// `Activate` in `Browsing`: a secured network asks for its password; an open
/// one is disconnected from if it is the associated network, else connected to.
pub open spec fn activate(s: AppView) -> (AppView, ActionView) {
    match s.selected {
        Some(i) if i < s.networks.len() => {
            let w = s.networks[i as int];
            if w.authentication != open_auth() {
                (
                    AppView {
                        mode: ModeView::PasswordEntry { target: w.ssid, buffer: Seq::empty() },
                        ..s
                    },
                    ActionView::Nothing,
                )
            } else if s.connected == Some(w.ssid) {
                (s, ActionView::Disconnect)
            } else {
                (s, ActionView::ConnectOpen(w.ssid))
            }
        },
        _ => (s, ActionView::Nothing),
    }
}

/// The transition that `intent` makes from `s`, and the action it asks for.
pub open spec fn step(s: AppView, intent: Intent) -> (AppView, ActionView) {
    match s.mode {
        ModeView::Browsing => match intent {
            Intent::SelectNext => (
                AppView { selected: next_index(s.selected, s.networks.len()), ..s },
                ActionView::Nothing,
            ),
            Intent::SelectPrevious => (
                AppView { selected: previous_index(s.selected, s.networks.len()), ..s },
                ActionView::Nothing,
            ),
            Intent::Activate => activate(s),
            Intent::StartSpeedTest => if s.speed is Running {
                (s, ActionView::Nothing)
            } else {
                (AppView { speed: SpeedView::Running, ..s }, ActionView::MeasureSpeed)
            },
            Intent::Quit => (s, ActionView::Quit),
            _ => (s, ActionView::Nothing),
        },
        ModeView::PasswordEntry { target, buffer } => match intent {
            Intent::TextInput(c) => (
                AppView { mode: ModeView::PasswordEntry { target, buffer: buffer.push(c) }, ..s },
                ActionView::Nothing,
            ),
            Intent::Backspace => (
                AppView {
                    mode: ModeView::PasswordEntry {
                        target,
                        buffer: if buffer.len() > 0 { buffer.drop_last() } else { buffer },
                    },
                    ..s
                },
                ActionView::Nothing,
            ),
            Intent::Confirm => (
                AppView { mode: ModeView::Browsing, ..s },
                ActionView::ConnectSecured(target, buffer),
            ),
            Intent::Cancel => (AppView { mode: ModeView::Browsing, ..s }, ActionView::Nothing),
            _ => (s, ActionView::Nothing),
        },
    }
}

/// `s` after a fresh scan: the list and the associated network are replaced,
/// the selection is kept where it can be.
pub open spec fn refreshed(
    s: AppView,
    networks: Seq<NetworkView>,
    connected: Option<Seq<char>>,
) -> AppView {
    AppView {
        networks,
        selected: kept_index(s.selected, networks.len()),
        connected,
        ..s
    }
}

/// The text that a finished speed test shows: the rate, or the error after
/// `"Err: "`.
pub open spec fn speed_text(outcome: Result<Seq<char>, Seq<char>>) -> Seq<char> {
    match outcome {
        Ok(rate) => rate,
        Err(e) => seq!['E', 'r', 'r', ':', ' '] + e,
    }
}

/// `s` once a speed measurement has given `outcome`.
pub open spec fn speed_finished(s: AppView, outcome: Result<Seq<char>, Seq<char>>) -> AppView {
    AppView { speed: SpeedView::Done(speed_text(outcome)), ..s }
}

/// Selection is circular: `SelectNext` on the last entry selects the first,
/// and `SelectPrevious` on the first selects the last.
pub proof fn lemma_selection_wraps(s: AppView)
    requires
        s.wf(),
        s.mode is Browsing,
        s.networks.len() > 0,
    ensures
        s.selected == Some((s.networks.len() - 1) as nat) ==> step(s, Intent::SelectNext).0.selected
            == Some(0nat),
        s.selected == Some(0nat) ==> step(s, Intent::SelectPrevious).0.selected == Some(
            (s.networks.len() - 1) as nat,
        ),
        step(s, Intent::SelectNext).0.wf(),
        step(s, Intent::SelectPrevious).0.wf(),
{
    let len = s.networks.len() as int;
    lemma_mod_self_0(len);
    lemma_small_mod((len - 1) as nat, len as nat);
    match s.selected {
        Some(i) => {
            lemma_mod_bound((i as int) + 1, len);
            lemma_mod_bound((i as int) + len - 1, len);
        },
        None => {},
    }
}

/// `Activate` on an open network that is the associated one asks for a
/// disconnection and for nothing else, and changes no state.
pub proof fn lemma_activate_associated_open_disconnects(s: AppView)
    requires
        s.wf(),
        s.mode is Browsing,
        s.selected is Some,
        s.networks[s.selected->0 as int].authentication == open_auth(),
        s.connected == Some(s.networks[s.selected->0 as int].ssid),
    ensures
        step(s, Intent::Activate) == (s, ActionView::Disconnect),
{
}

/// `Confirm` during password entry hands the target and the typed password
/// to a secured connection and returns to `Browsing`, which the refresh that
/// follows keeps whatever the connection's outcome.
pub proof fn lemma_confirm_returns_to_browsing(
    s: AppView,
    networks: Seq<NetworkView>,
    connected: Option<Seq<char>>,
)
    requires
        s.mode is PasswordEntry,
    ensures
        step(s, Intent::Confirm).1 == ActionView::ConnectSecured(
            s.mode->target,
            s.mode->buffer,
        ),
        step(s, Intent::Confirm).0.mode is Browsing,
        refreshed(step(s, Intent::Confirm).0, networks, connected).mode is Browsing,
{
}

/// Starting a speed test while none runs marks it running and asks for a
/// measurement; finishing it records the outcome. Neither touches the list,
/// the selection, the associated network or the mode.
pub proof fn lemma_speed_test_keeps_list(s: AppView, outcome: Result<Seq<char>, Seq<char>>)
    requires
        s.wf(),
        s.mode is Browsing,
        !(s.speed is Running),
    ensures
        step(s, Intent::StartSpeedTest).1 == ActionView::MeasureSpeed,
        step(s, Intent::StartSpeedTest).0 == (AppView { speed: SpeedView::Running, ..s }),
        speed_finished(step(s, Intent::StartSpeedTest).0, outcome) == (AppView {
            speed: SpeedView::Done(speed_text(outcome)),
            ..s
        }),
{
}

pub open spec fn result_view(r: Result<String, String>) -> Result<Seq<char>, Seq<char>> {
    match r {
        Ok(s) => Ok(s@),
        Err(e) => Err(e@),
    }
}

impl AppState {
    pub open spec fn wf(&self) -> bool {
        self@.wf()
    }

    /// The state at startup, from the first scan and status query.
    pub fn new(wifi_list: Vec<WifiInfo>, connected_ssid: Option<String>) -> (r: AppState)
        ensures
            r.wf(),
            r@.networks == views(wifi_list@),
            r@.selected == (if wifi_list.len() > 0 { Some(0nat) } else { None::<nat> }),
            r@.connected == opt_view(connected_ssid),
            r@.mode is Browsing,
            r@.speed is Idle,
    {
        let selected = if wifi_list.len() > 0 { Some(0) } else { None };
        AppState { wifi_list, selected, connected_ssid, mode: Mode::Browsing, speed_test: SpeedTest::Idle }
    }

    /// Replaces the list and the associated network with those of a new scan.
    pub fn refresh(&mut self, wifi_list: Vec<WifiInfo>, connected_ssid: Option<String>)
        requires
            old(self).wf(),
        ensures
            final(self).wf(),
            final(self)@ == refreshed(old(self)@, views(wifi_list@), opt_view(connected_ssid)),
    {
        let len = wifi_list.len();
        let selected = if len == 0 {
            None
        } else {
            match self.selected {
                Some(i) => if i < len { Some(i) } else { Some(len - 1) },
                None => Some(0),
            }
        };
        self.wifi_list = wifi_list;
        self.connected_ssid = connected_ssid;
        self.selected = selected;
    }

    /// Moves the selection one entry down, from the last back to the first.
    pub fn next(&mut self)
        requires
            old(self).wf(),
        ensures
            final(self).wf(),
            final(self)@ == (AppView {
                selected: next_index(old(self)@.selected, old(self)@.networks.len()),
                ..old(self)@
            }),
    {
        let len = self.wifi_list.len();
        match self.selected {
            Some(i) => {
                let j = if i + 1 >= len { 0 } else { i + 1 };
                proof {
                    if i + 1 >= len {
                        lemma_mod_self_0(len as int);
                    } else {
                        lemma_small_mod((i + 1) as nat, len as nat);
                    }
                }
                self.selected = Some(j);
            },
            None => {},
        }
    }

    /// Moves the selection one entry up, from the first back to the last.
    pub fn previous(&mut self)
        requires
            old(self).wf(),
        ensures
            final(self).wf(),
            final(self)@ == (AppView {
                selected: previous_index(old(self)@.selected, old(self)@.networks.len()),
                ..old(self)@
            }),
    {
        let len = self.wifi_list.len();
        match self.selected {
            Some(i) => {
                let j = if i == 0 { len - 1 } else { i - 1 };
                proof {
                    if i == 0 {
                        lemma_small_mod((len - 1) as nat, len as nat);
                    } else {
                        lemma_mod_self_0(len as int);
                        lemma_mod_adds((i - 1) as int, len as int, len as int);
                        lemma_small_mod((i - 1) as nat, len as nat);
                    }
                }
                self.selected = Some(j);
            },
            None => {},
        }
    }

    /// The selected network, if any.
    pub fn selected_network(&self) -> (r: Option<&WifiInfo>)
        requires
            self.wf(),
        ensures
            match self.selected {
                Some(i) => r == Some(&self.wifi_list@[i as int]),
                None => r is None,
            },
    {
        match self.selected {
            Some(i) => Some(&self.wifi_list[i]),
            None => None,
        }
    }

    /// Whether input goes to the password being typed.
    pub fn is_entering_password(&self) -> (r: bool)
        ensures
            r == (self.mode is PasswordEntry),
    {
        match self.mode {
            Mode::PasswordEntry { .. } => true,
            Mode::Browsing => false,
        }
    }

    /// The intent that `key` stands for in the current mode, if any.
    pub fn intent_for_key(&self, key: Key) -> (r: Option<Intent>)
        ensures
            r == intent_of(self.mode is PasswordEntry, key),
    {
        if self.is_entering_password() {
            match key {
                Key::Enter => Some(Intent::Confirm),
                Key::Char(c) => Some(Intent::TextInput(c)),
                Key::Backspace => Some(Intent::Backspace),
                Key::Esc => Some(Intent::Cancel),
                _ => None,
            }
        } else {
            match key {
                Key::Esc | Key::Char('q') => Some(Intent::Quit),
                Key::Char('j') | Key::Down => Some(Intent::SelectNext),
                Key::Char('k') | Key::Up => Some(Intent::SelectPrevious),
                Key::Enter => Some(Intent::Activate),
                Key::Char('s') => Some(Intent::StartSpeedTest),
                _ => None,
            }
        }
    }

    fn activate(&mut self) -> (a: Action)
        requires
            old(self).wf(),
            old(self).mode is Browsing,
        ensures
            final(self).wf(),
            (final(self)@, a@) == activate(old(self)@),
    {
        match self.selected {
            Some(i) => {
                let open = "Open".to_owned();
                proof {
                    reveal_strlit("Open");
                    assert(open@ == open_auth());
                }
                let w = &self.wifi_list[i];
                proof {
                    assert(views(self.wifi_list@)[i as int] == w@);
                }
                if w.authentication != open {
                    let target = w.ssid.clone();
                    self.mode = Mode::PasswordEntry { target_ssid: target, buffer: String::new() };
                    Action::Nothing
                } else {
                    let same = match &self.connected_ssid {
                        Some(c) => *c == w.ssid,
                        None => false,
                    };
                    if same {
                        Action::Disconnect
                    } else {
                        Action::ConnectOpen(w.ssid.clone())
                    }
                }
            },
            None => Action::Nothing,
        }
    }

    /// Applies `intent` and returns the action that the caller is to perform.
    pub fn handle_intent(&mut self, intent: Intent) -> (a: Action)
        requires
            old(self).wf(),
        ensures
            final(self).wf(),
            (final(self)@, a@) == step(old(self)@, intent),
    {
        let entering = self.is_entering_password();
        if !entering {
            match intent {
                Intent::SelectNext => {
                    self.next();
                    Action::Nothing
                },
                Intent::SelectPrevious => {
                    self.previous();
                    Action::Nothing
                },
                Intent::Activate => self.activate(),
                Intent::StartSpeedTest => {
                    if matches!(self.speed_test, SpeedTest::Running) {
                        Action::Nothing
                    } else {
                        self.speed_test = SpeedTest::Running;
                        Action::MeasureSpeed
                    }
                },
                Intent::Quit => Action::Quit,
                _ => Action::Nothing,
            }
        } else {
            match intent {
                Intent::TextInput(c) => {
                    if let Mode::PasswordEntry { buffer, .. } = &mut self.mode {
                        push_char(buffer, c);
                    }
                    Action::Nothing
                },
                Intent::Backspace => {
                    if let Mode::PasswordEntry { buffer, .. } = &mut self.mode {
                        pop_char(buffer);
                    }
                    Action::Nothing
                },
                Intent::Confirm => {
                    let a = match &self.mode {
                        Mode::PasswordEntry { target_ssid, buffer } => Action::ConnectSecured {
                            ssid: target_ssid.clone(),
                            password: buffer.clone(),
                        },
                        Mode::Browsing => Action::Nothing,
                    };
                    self.mode = Mode::Browsing;
                    a
                },
                Intent::Cancel => {
                    self.mode = Mode::Browsing;
                    Action::Nothing
                },
                _ => Action::Nothing,
            }
        }
    }

    /// Records the outcome of a speed measurement.
    pub fn finish_speed_test(&mut self, outcome: Result<String, String>)
        requires
            old(self).wf(),
        ensures
            final(self).wf(),
            final(self)@ == speed_finished(old(self)@, result_view(outcome)),
    {
        let text = match outcome {
            Ok(rate) => rate,
            Err(e) => {
                let mut t = "Err: ".to_owned();
                proof {
                    reveal_strlit("Err: ");
                    assert("Err: "@ == seq!['E', 'r', 'r', ':', ' ']);
                }
                t.append(e.as_str());
                t
            },
        };
        self.speed_test = SpeedTest::Done(text);
    }
}

} // verus!
