//! The interactive editor: a state machine that turns key presses into
//! changes of the profile store or of a pending edit buffer.
//!
//! The session decides; it performs no input or output. Each key press gives
//! the next state and an [`Action`] that the caller carries out: saving the
//! store, launching a connection, running the permission sequence, or
//! leaving.

use vstd::prelude::*;
use vstd::string::StringExecFns;
use crate::codec::{parse, serialize};
use crate::permissions::Report;
use crate::profile::{
    get_edit_field_mut, host_views, text_of, Field, HostEntry, HostView, FIELD_COUNT,
};
use crate::store::{lemma_selection_wraps, ProfileStore, StoreError, StoreView};

verus! {

/// The window, in nanoseconds, within which a repeated key is dropped.
pub const DEBOUNCE_NANOS: u64 = 50_000_000;

/// A key press, as far as the editor tells keys apart.
#[derive(Clone, Copy, PartialEq, Eq, Debug, Structural)]
pub enum Key {
    Enter,
    Esc,
    Tab,
    Up,
    Down,
    Backspace,
    Char(char),
    /// Any other key.
    Other,
}

/// Where a committed edit goes.
#[derive(Clone, Copy, PartialEq, Eq, Debug, Structural)]
pub enum EditTarget {
    /// It replaces the profile at this index.
    Existing(usize),
    /// It is added as a new profile.
    NewEntry,
}

/// A pending edit: the buffer, the field the cursor is on, and the target.
#[derive(Debug)]
pub struct EditState {
    pub host: HostEntry,
    pub field_index: usize,
    pub target: EditTarget,
}

/// A pending edit as a mathematical value.
pub struct EditView {
    pub host: HostView,
    pub field_index: nat,
    pub target: EditTarget,
}

impl View for EditState {
    type V = EditView;

    open spec fn view(&self) -> EditView {
        EditView { host: self.host@, field_index: self.field_index as nat, target: self.target }
    }
}

/// The mode of the session.
#[derive(Debug)]
pub enum Mode {
    /// The list of profiles is shown.
    Browsing,
    /// A profile is being edited.
    Editing(EditState),
    /// The session has ended: the user left, or a connection was launched.
    Finished,
}

/// The mode as a mathematical value.
pub enum ModeView {
    Browsing,
    Editing(EditView),
    Finished,
}

impl View for Mode {
    type V = ModeView;

    open spec fn view(&self) -> ModeView {
        match self {
            Mode::Browsing => ModeView::Browsing,
            Mode::Editing(e) => ModeView::Editing(e@),
            Mode::Finished => ModeView::Finished,
        }
    }
}

/// What the caller is to do after a key press.
#[derive(Debug)]
pub enum Action {
    /// Nothing but to show the new state.
    Continue,
    /// Write the store to the configuration file; where that fails, say so
    /// to [`AppState::save_failed`].
    Persist,
    /// Launch a connection to the host of this name; the session has ended.
    Launch(String),
    /// Run the permission sequence on this credential file, and hand its
    /// result to [`AppState::permissions_fixed`].
    FixPermissions(String),
    /// Leave; the session has ended.
    Quit,
}

/// An action as a mathematical value.
pub enum ActionView {
    Continue,
    Persist,
    Launch(Seq<char>),
    FixPermissions(Seq<char>),
    Quit,
}

impl View for Action {
    type V = ActionView;

    open spec fn view(&self) -> ActionView {
        match self {
            Action::Continue => ActionView::Continue,
            Action::Persist => ActionView::Persist,
            Action::Launch(name) => ActionView::Launch(name@),
            Action::FixPermissions(path) => ActionView::FixPermissions(path@),
            Action::Quit => ActionView::Quit,
        }
    }
}

/// The name that a new profile starts with.
pub open spec fn new_host_name() -> Seq<char> {
    "new-host"@
}

/// The status message that a commit with an empty name leaves.
pub open spec fn empty_name_message() -> Seq<char> {
    "Host name must not be empty"@
}

/// The status message that a failed save leaves, with the reason given.
pub open spec fn save_failure_message(reason: Seq<char>) -> Seq<char> {
    "Could not save: "@ + reason
}

/// The text of the result of a permission sequence, success or failure.
pub open spec fn result_text(result: Result<Report, Report>) -> Seq<char> {
    match result {
        Ok(report) => report@.text,
        Err(report) => report@.text,
    }
}

/// A text without its last character; the empty text stays empty.
pub open spec fn without_last(s: Seq<char>) -> Seq<char> {
    if s.len() > 0 {
        s.drop_last()
    } else {
        s
    }
}

/// The session as a mathematical value.
pub struct AppView {
    pub store: StoreView,
    pub mode: ModeView,
    pub last_key: Option<Key>,
    pub last_key_time: Option<u64>,
    pub status: Option<Seq<char>>,
}

impl AppView {
    /// The store is well formed, and a pending edit has its cursor on a
    /// field and its target, if it is a profile of the store, in the store.
    pub open spec fn wf(self) -> bool {
        &&& self.store.wf()
        &&& match self.mode {
            ModeView::Editing(e) => {
                &&& e.field_index < FIELD_COUNT
                &&& match e.target {
                    EditTarget::Existing(i) => i < self.store.hosts.len(),
                    EditTarget::NewEntry => true,
                }
            },
            _ => true,
        }
    }

    /// The session at its start: browsing the given store.
    pub open spec fn starting(store: StoreView) -> AppView {
        AppView {
            store,
            mode: ModeView::Browsing,
            last_key: None,
            last_key_time: None,
            status: None,
        }
    }

    /// Whether a key press at time `now` is admitted. It is dropped where it
    /// is the key that was admitted last and arrives less than the debounce
    /// window after that admission.
    pub open spec fn admits(self, key: Key, now: u64) -> bool {
        match (self.last_key, self.last_key_time) {
            (Some(last), Some(t)) => !(last == key && now - t < DEBOUNCE_NANOS),
            _ => true,
        }
    }

    /// The session in another mode. A change of mode clears the status
    /// message.
    pub open spec fn enter(self, mode: ModeView) -> AppView {
        AppView { mode, status: None, ..self }
    }

    /// What an admitted key does while browsing.
    pub open spec fn press_browsing(self, key: Key) -> (AppView, ActionView) {
        match key {
            Key::Down => (AppView { store: self.store.select_next(), ..self }, ActionView::Continue),
            Key::Up => (AppView { store: self.store.select_previous(), ..self }, ActionView::Continue),
            Key::Enter => match self.store.current() {
                Some(h) => (self.enter(ModeView::Finished), ActionView::Launch(h.name)),
                None => (self, ActionView::Continue),
            },
            Key::Char(c) => if c == 'q' {
                (self.enter(ModeView::Finished), ActionView::Quit)
            } else if c == 'e' {
                match self.store.current() {
                    Some(h) => (
                        self.enter(
                            ModeView::Editing(
                                EditView {
                                    host: h,
                                    field_index: 0,
                                    target: EditTarget::Existing(self.store.selected as usize),
                                },
                            ),
                        ),
                        ActionView::Continue,
                    ),
                    None => (self, ActionView::Continue),
                }
            } else if c == 'n' {
                (
                    self.enter(
                        ModeView::Editing(
                            EditView {
                                host: HostView::named(new_host_name()),
                                field_index: 0,
                                target: EditTarget::NewEntry,
                            },
                        ),
                    ),
                    ActionView::Continue,
                )
            } else if c == 'k' {
                match self.store.current() {
                    Some(h) => match h.identity_file {
                        Some(path) => (self, ActionView::FixPermissions(path)),
                        None => (self, ActionView::Continue),
                    },
                    None => (self, ActionView::Continue),
                }
            } else {
                (self, ActionView::Continue)
            },
            _ => (self, ActionView::Continue),
        }
    }

    /// The session with the pending edit changed.
    pub open spec fn editing(self, e: EditView) -> AppView {
        AppView { mode: ModeView::Editing(e), ..self }
    }

    /// What committing the pending edit `e` does. A buffer with an empty
    /// name is not a profile: the edit stays pending and a status message
    /// says why. Otherwise the buffer replaces its target, or is added as the
    /// last profile and selected; the session goes back to browsing, and the
    /// store is to be saved.
    pub open spec fn commit(self, e: EditView) -> (AppView, ActionView) {
        if !e.host.valid() {
            (AppView { status: Some(empty_name_message()), ..self }, ActionView::Continue)
        } else {
            let store = match e.target {
                EditTarget::Existing(i) => self.store.replace(i as nat, e.host),
                EditTarget::NewEntry => self.store.append(e.host).select(self.store.hosts.len()),
            };
            (AppView { store, ..self.enter(ModeView::Browsing) }, ActionView::Persist)
        }
    }

    /// What an admitted key does while the edit `e` is pending.
    pub open spec fn press_editing(self, e: EditView, key: Key) -> (AppView, ActionView) {
        match key {
            Key::Esc => (self.enter(ModeView::Browsing), ActionView::Continue),
            Key::Enter => self.commit(e),
            Key::Tab | Key::Down => (
                self.editing(
                    EditView {
                        field_index: ((e.field_index as int + 1) % (FIELD_COUNT as int)) as nat,
                        ..e
                    },
                ),
                ActionView::Continue,
            ),
            Key::Up => (
                self.editing(
                    EditView {
                        field_index: ((e.field_index as int + FIELD_COUNT - 1) % (
                        FIELD_COUNT as int)) as nat,
                        ..e
                    },
                ),
                ActionView::Continue,
            ),
            Key::Backspace => match Field::at(e.field_index as int) {
                Some(f) => (
                    self.editing(EditView { host: e.host.with(f, without_last(e.host.text(f))), ..e }),
                    ActionView::Continue,
                ),
                None => (self, ActionView::Continue),
            },
            Key::Char(c) => match Field::at(e.field_index as int) {
                Some(f) => (
                    self.editing(EditView { host: e.host.with(f, e.host.text(f).push(c)), ..e }),
                    ActionView::Continue,
                ),
                None => (self, ActionView::Continue),
            },
            Key::Other => (self, ActionView::Continue),
        }
    }

    /// What an admitted key does.
    pub open spec fn press(self, key: Key) -> (AppView, ActionView) {
        match self.mode {
            ModeView::Browsing => self.press_browsing(key),
            ModeView::Editing(e) => self.press_editing(e, key),
            ModeView::Finished => (self, ActionView::Continue),
        }
    }

    /// What a key press at time `now` does. A session that has ended, and a
    /// key that is not admitted, change nothing. An admitted key makes its
    /// transition and becomes the key admitted last.
    pub open spec fn handle(self, key: Key, now: u64) -> (AppView, ActionView) {
        if self.mode is Finished || !self.admits(key, now) {
            (self, ActionView::Continue)
        } else {
            let (next, action) = self.press(key);
            (AppView { last_key: Some(key), last_key_time: Some(now), ..next }, action)
        }
    }
}

/// Every key press keeps the session well formed.
pub proof fn lemma_handle_keeps_wf(s: AppView, key: Key, now: u64)
    requires
        s.wf(),
    ensures
        s.handle(key, now).0.wf(),
{
    lemma_selection_wraps(s.store);
}

/// The status message does not outlive a change of mode: a key press that
/// starts an edit, ends one, or ends the session leaves no status message.
pub proof fn lemma_mode_change_clears_status(s: AppView, key: Key, now: u64)
    ensures
        ({
            let next = s.handle(key, now).0;
            &&& s.mode is Browsing && !(next.mode is Browsing) ==> next.status is None
            &&& s.mode is Editing && !(next.mode is Editing) ==> next.status is None
            &&& s.mode is Finished ==> next == s
        }),
{
}

/// While browsing, an admitted press of the down key on the last profile
/// selects the first, and one of the up key on the first profile selects the
/// last. In an empty store neither changes the selection. Neither changes
/// the profiles.
pub proof fn lemma_navigation_wraps(s: AppView, now: u64)
    requires
        s.wf(),
        s.mode is Browsing,
    ensures
        ({
            let n = s.store.hosts.len();
            let down = s.handle(Key::Down, now).0;
            let up = s.handle(Key::Up, now).0;
            &&& down.store.hosts == s.store.hosts
            &&& up.store.hosts == s.store.hosts
            &&& n == 0 ==> down.store == s.store && up.store == s.store
            &&& n > 0 && s.admits(Key::Down, now) && s.store.selected == n - 1
                ==> down.store.selected == 0
            &&& n > 0 && s.admits(Key::Up, now) && s.store.selected == 0 ==> up.store.selected == n
                - 1
        }),
{
    lemma_selection_wraps(s.store);
}

/// Of two presses of one key, the first of them admitted, the second is
/// dropped where it comes less than the debounce window after the first: the
/// two make exactly the one transition of the first. Where it comes later,
/// it is admitted and makes a transition of its own, so the two make two.
/// The times are those of a clock that does not run backwards, and the first
/// press does not end the session.
pub proof fn lemma_debounce(s: AppView, key: Key, first: u64, second: u64)
    requires
        s.wf(),
        !(s.mode is Finished),
        s.admits(key, first),
        first <= second,
        !(s.handle(key, first).0.mode is Finished),
    ensures
        ({
            let once = s.handle(key, first).0;
            let twice = once.handle(key, second);
            &&& once == (AppView {
                last_key: Some(key),
                last_key_time: Some(first),
                ..s.press(key).0
            })
            &&& second - first < DEBOUNCE_NANOS ==> twice == (once, ActionView::Continue)
            &&& second - first >= DEBOUNCE_NANOS ==> twice == (
                AppView { last_key: Some(key), last_key_time: Some(second), ..once.press(key).0 },
                once.press(key).1,
            )
        }),
{
}

/// A key that is dropped does not become the key admitted last: the state
/// stays as it is, its record of the last admission included.
pub proof fn lemma_dropped_key_changes_nothing(s: AppView, key: Key, now: u64)
    requires
        !s.admits(key, now),
    ensures
        s.handle(key, now) == (s, ActionView::Continue),
        s.last_key == Some(key),
{
}

/// While a profile is being edited, no key but the one that commits changes
/// the store: changes to the buffer stay in the buffer, and a cancelled
/// edit leaves the store, and so the text written for it, as it was. A commit
/// of a buffer with an empty name changes nothing in the store either.
pub proof fn lemma_edit_isolation(s: AppView, key: Key, now: u64)
    requires
        s.mode is Editing,
    ensures
        key != Key::Enter ==> s.handle(key, now).0.store == s.store,
        key != Key::Enter ==> s.handle(key, now).1 == ActionView::Continue,
        key == Key::Esc && s.admits(key, now) ==> s.handle(key, now).0.mode is Browsing,
        !s.mode->Editing_0.host.valid() ==> s.handle(key, now).0.store == s.store,
        serialize(s.handle(key, now).0.store.hosts) != serialize(s.store.hosts) ==> key == Key::Enter
            && s.handle(key, now).1 == ActionView::Persist,
{
}

/// A commit that is admitted and whose buffer has a name puts the buffer in
/// the store, at its target or as the last profile, which is then selected;
/// it asks for the store to be saved, once.
pub proof fn lemma_commit(s: AppView, now: u64)
    requires
        s.wf(),
        s.mode is Editing,
        s.mode->Editing_0.host.valid(),
        s.admits(Key::Enter, now),
    ensures
        ({
            let e = s.mode->Editing_0;
            let (next, action) = s.handle(Key::Enter, now);
            &&& action == ActionView::Persist
            &&& next.mode is Browsing
            &&& match e.target {
                EditTarget::Existing(i) => {
                    &&& next.store.hosts == s.store.hosts.update(i as int, e.host)
                    &&& next.store.selected == s.store.selected
                },
                EditTarget::NewEntry => {
                    &&& next.store.hosts == s.store.hosts.push(e.host)
                    &&& next.store.hosts.last() == e.host
                    &&& next.store.selected == s.store.hosts.len()
                },
            }
        }),
{
}

/// The editor session: the store, the mode, the key admitted last with its
/// time, and a transient status message.
pub struct AppState {
    store: ProfileStore,
    mode: Mode,
    last_key: Option<Key>,
    last_key_time: Option<u64>,
    status_message: Option<String>,
}

impl View for AppState {
    type V = AppView;

    closed spec fn view(&self) -> AppView {
        AppView {
            store: self.store@,
            mode: self.mode@,
            last_key: self.last_key,
            last_key_time: self.last_key_time,
            status: text_of(self.status_message),
        }
    }
}

impl AppState {
    /// A session that browses the given profiles, with the first selected.
    /// A profile with an empty name is refused.
    pub fn new(hosts: Vec<HostEntry>) -> (r: Result<AppState, StoreError>)
        ensures
            match r {
                Ok(s) => {
                    &&& s@ == AppView::starting(StoreView::holding(host_views(hosts@)))
                    &&& s@.wf()
                },
                Err(e) => {
                    &&& e == StoreError::EmptyName
                    &&& exists|i: int| 0 <= i < hosts.len() && !(#[trigger] hosts[i])@.valid()
                },
            },
    {
        match ProfileStore::new(hosts) {
            Ok(store) => Ok(AppState::with_store(store)),
            Err(e) => Err(e),
        }
    }

    /// A session that browses the given store.
    pub fn with_store(store: ProfileStore) -> (s: AppState)
        ensures
            s@ == AppView::starting(store@),
    {
        AppState {
            store,
            mode: Mode::Browsing,
            last_key: None,
            last_key_time: None,
            status_message: None,
        }
    }

    /// A session that browses the profiles of a configuration text.
    pub fn from_config(text: &str) -> (s: AppState)
        ensures
            s@ == AppView::starting(StoreView::holding(parse(text@))),
            s@.wf(),
    {
        AppState::with_store(ProfileStore::from_config(text))
    }

    /// The profile store.
    pub fn store(&self) -> (r: &ProfileStore)
        ensures
            r@ == self@.store,
    {
        &self.store
    }

    /// The mode.
    pub fn mode(&self) -> (r: &Mode)
        ensures
            r@ == self@.mode,
    {
        &self.mode
    }

    /// The pending edit, while there is one.
    pub fn edit_state(&self) -> (r: Option<&EditState>)
        ensures
            match r {
                Some(e) => self@.mode == ModeView::Editing(e@),
                None => !(self@.mode is Editing),
            },
    {
        match &self.mode {
            Mode::Editing(e) => Some(e),
            _ => None,
        }
    }

    /// Whether a profile is being edited.
    pub fn is_editing(&self) -> (r: bool)
        ensures
            r == (self@.mode is Editing),
    {
        match &self.mode {
            Mode::Editing(_) => true,
            _ => false,
        }
    }

    /// Whether the session has ended.
    pub fn is_finished(&self) -> (r: bool)
        ensures
            r == (self@.mode is Finished),
    {
        match &self.mode {
            Mode::Finished => true,
            _ => false,
        }
    }

    /// The key that was admitted last.
    pub fn last_key(&self) -> (r: Option<Key>)
        ensures
            r == self@.last_key,
    {
        self.last_key
    }

    /// The time at which the last key was admitted.
    pub fn last_key_time(&self) -> (r: Option<u64>)
        ensures
            r == self@.last_key_time,
    {
        self.last_key_time
    }

    /// The status message, while there is one.
    pub fn status_message(&self) -> (r: Option<&String>)
        ensures
            match r {
                Some(m) => self@.status == Some(m@),
                None => self@.status is None,
            },
    {
        self.status_message.as_ref()
    }

    /// Sets the status message. Nothing else changes.
    pub fn set_status(&mut self, message: String)
        ensures
            final(self)@ == (AppView { status: Some(message@), ..old(self)@ }),
    {
        self.status_message = Some(message);
    }

    /// Takes the result of the permission sequence that
    /// [`Action::FixPermissions`] asked for: its text, of a success or of a
    /// failure, becomes the status message. Nothing else changes.
    pub fn permissions_fixed(&mut self, result: Result<Report, Report>)
        ensures
            final(self)@ == (AppView { status: Some(result_text(result)), ..old(self)@ }),
    {
        let text = match result {
            Ok(report) => report.text,
            Err(report) => report.text,
        };
        self.status_message = Some(text);
    }

    /// Takes word that the save which [`Action::Persist`] asked for failed:
    /// the status message says so, with the reason. The edit stays applied to
    /// the store. Nothing else changes.
    pub fn save_failed(&mut self, reason: &str)
        ensures
            final(self)@ == (AppView {
                status: Some(save_failure_message(reason@)),
                ..old(self)@
            }),
    {
        let mut text = "Could not save: ".to_owned();
        text.append(reason);
        self.status_message = Some(text);
    }

    /// Whether a key press at time `now` would be admitted.
    pub fn admits(&self, key: Key, now: u64) -> (r: bool)
        ensures
            r == self@.admits(key, now),
    {
        match (self.last_key, self.last_key_time) {
            (Some(last), Some(t)) => !(last == key && (now < t || now - t < DEBOUNCE_NANOS)),
            _ => true,
        }
    }

    /// Takes a key press at time `now`, in nanoseconds of a clock that does
    /// not run backwards, and says what the caller is to do.
    pub fn handle_key(&mut self, key: Key, now: u64) -> (action: Action)
        requires
            old(self)@.wf(),
        ensures
            final(self)@.wf(),
            final(self)@ == old(self)@.handle(key, now).0,
            action@ == old(self)@.handle(key, now).1,
    {
        if self.is_finished() || !self.admits(key, now) {
            return Action::Continue;
        }
        let action = if self.is_editing() {
            self.press_editing(key)
        } else {
            self.press_browsing(key)
        };
        self.last_key = Some(key);
        self.last_key_time = Some(now);
        action
    }

    /// Goes to another mode and clears the status message.
    fn enter(&mut self, mode: Mode)
        ensures
            final(self)@ == old(self)@.enter(mode@),
    {
        self.mode = mode;
        self.status_message = None;
    }

    /// Starts editing a copy of the selected profile, where there is one.
    fn edit_current(&mut self)
        requires
            old(self)@.wf(),
            old(self)@.mode is Browsing,
        ensures
            final(self)@.wf(),
            final(self)@ == old(self)@.press_browsing(Key::Char('e')).0,
    {
        let index = self.store.selected();
        let copy = match self.store.current() {
            Some(host) => Some(host.clone()),
            None => None,
        };
        if let Some(host) = copy {
            self.enter(
                Mode::Editing(
                    EditState { host, field_index: 0, target: EditTarget::Existing(index) },
                ),
            );
        }
    }

    /// Starts editing a new profile.
    fn edit_new(&mut self)
        requires
            old(self)@.wf(),
            old(self)@.mode is Browsing,
        ensures
            final(self)@.wf(),
            final(self)@ == old(self)@.press_browsing(Key::Char('n')).0,
    {
        let host = HostEntry::named("new-host".to_owned());
        self.enter(Mode::Editing(EditState { host, field_index: 0, target: EditTarget::NewEntry }));
    }

    /// Takes an admitted key while browsing.
    fn press_browsing(&mut self, key: Key) -> (action: Action)
        requires
            old(self)@.wf(),
            old(self)@.mode is Browsing,
        ensures
            final(self)@.wf(),
            final(self)@ == old(self)@.press(key).0,
            action@ == old(self)@.press(key).1,
    {
        match key {
            Key::Down => {
                self.store.select_next();
                Action::Continue
            },
            Key::Up => {
                self.store.select_previous();
                Action::Continue
            },
            Key::Enter => {
                let name = match self.store.current() {
                    Some(host) => Some(host.name.clone()),
                    None => None,
                };
                match name {
                    Some(name) => {
                        self.enter(Mode::Finished);
                        Action::Launch(name)
                    },
                    None => Action::Continue,
                }
            },
            Key::Char(c) => {
                if c == 'q' {
                    self.enter(Mode::Finished);
                    Action::Quit
                } else if c == 'e' {
                    self.edit_current();
                    Action::Continue
                } else if c == 'n' {
                    self.edit_new();
                    Action::Continue
                } else if c == 'k' {
                    match self.store.current() {
                        Some(host) => match &host.identity_file {
                            Some(path) => Action::FixPermissions(path.clone()),
                            None => Action::Continue,
                        },
                        None => Action::Continue,
                    }
                } else {
                    Action::Continue
                }
            },
            _ => Action::Continue,
        }
    }

    /// Commits the pending edit.
    fn commit(&mut self) -> (action: Action)
        requires
            old(self)@.wf(),
            old(self)@.mode is Editing,
        ensures
            final(self)@.wf(),
            final(self)@ == old(self)@.press(Key::Enter).0,
            action@ == old(self)@.press(Key::Enter).1,
    {
        let mut mode = Mode::Browsing;
        core::mem::swap(&mut self.mode, &mut mode);
        match mode {
            Mode::Editing(edit) => {
                if !edit.host.has_name() {
                    self.mode = Mode::Editing(edit);
                    self.status_message = Some("Host name must not be empty".to_owned());
                    Action::Continue
                } else {
                    match edit.target {
                        EditTarget::Existing(index) => {
                            let _ = self.store.replace(index, edit.host);
                        },
                        EditTarget::NewEntry => {
                            if let Ok(index) = self.store.append(edit.host) {
                                self.store.select(index);
                            }
                        },
                    }
                    self.status_message = None;
                    Action::Persist
                }
            },
            _ => Action::Continue,
        }
    }

    /// Takes an admitted key while a profile is being edited.
    fn press_editing(&mut self, key: Key) -> (action: Action)
        requires
            old(self)@.wf(),
            old(self)@.mode is Editing,
        ensures
            final(self)@.wf(),
            final(self)@ == old(self)@.press(key).0,
            action@ == old(self)@.press(key).1,
    {
        match key {
            Key::Esc => {
                self.enter(Mode::Browsing);
                Action::Continue
            },
            Key::Enter => self.commit(),
            Key::Tab | Key::Down => {
                if let Mode::Editing(edit) = &mut self.mode {
                    edit.field_index = (edit.field_index + 1) % FIELD_COUNT;
                }
                Action::Continue
            },
            Key::Up => {
                if let Mode::Editing(edit) = &mut self.mode {
                    edit.field_index = (edit.field_index + FIELD_COUNT - 1) % FIELD_COUNT;
                }
                Action::Continue
            },
            Key::Backspace => {
                if let Mode::Editing(edit) = &mut self.mode {
                    if let Some(value) = get_edit_field_mut(&mut edit.host, edit.field_index) {
                        value.pop();
                    }
                }
                Action::Continue
            },
            Key::Char(c) => {
                if let Mode::Editing(edit) = &mut self.mode {
                    if let Some(value) = get_edit_field_mut(&mut edit.host, edit.field_index) {
                        value.push(c);
                    }
                }
                Action::Continue
            },
            Key::Other => Action::Continue,
        }
    }
}

} // verus!
