//! What a key press does: the interface state it changes and the action it asks for.
use vstd::prelude::*;
use vstd::string::*;

use crate::app::daemon::{daemon_next, daemon_previous};
use crate::app::state::{next_selection, next_spec, previous_selection, previous_spec, DaemonAction, Focus, LogTab};
use crate::config::{binding_key, Keybinds};
use crate::text::push_char;

verus! {

/// A key as the interface distinguishes it.
#[derive(Clone, Copy, Debug, PartialEq, Eq, Structural)]
pub enum Key {
    Char(char),
    Esc,
    Enter,
    Backspace,
    Up,
    Down,
    PageUp,
    PageDown,
    Tab,
    BackTab,
    Other,
}

/// The characters bound to each command.
#[derive(Clone, Copy, Debug, PartialEq, Eq, Structural)]
pub struct Keys {
    pub quit: char,
    pub search: char,
    pub daemon: char,
    pub scroll_down: char,
    pub scroll_up: char,
    pub focus_services: char,
    pub focus_logs: char,
    pub switch_tab_left: char,
    pub switch_tab_right: char,
    pub service_toggle: char,
    pub log_auto_scroll: char,
    pub auto_restart: char,
    pub refresh: char,
}

/// The key of a binding: its first character, else the fallback.
pub open spec fn key_of(binding: Seq<char>, fallback: char) -> char {
    if binding.len() > 0 {
        binding[0]
    } else {
        fallback
    }
}

impl Keys {
    /// The keys of a set of bindings, each falling back to its default where empty; the
    /// focus keys are `h` and `l`.
    pub fn from_bindings(kb: &Keybinds) -> (k: Keys)
        ensures
            k.quit == key_of(kb.app.quit@, 'q'),
            k.search == key_of(kb.app.search@, '/'),
            k.daemon == key_of(kb.app.daemon_menu@, 'd'),
            k.scroll_down == key_of(kb.app.scroll_down@, 'j'),
            k.scroll_up == key_of(kb.app.scroll_up@, 'k'),
            k.focus_services == 'h',
            k.focus_logs == 'l',
            k.switch_tab_left == key_of(kb.app.switch_tab_left@, '['),
            k.switch_tab_right == key_of(kb.app.switch_tab_right@, ']'),
            k.service_toggle == key_of(kb.services.toggle@, 's'),
            k.log_auto_scroll == key_of(kb.logs.toggle_auto_scroll@, ' '),
            k.auto_restart == key_of(kb.services.auto_restart@, 'a'),
            k.refresh == key_of(kb.app.refresh@, 'r'),
    {
        Keys {
            quit: binding_key(kb.app.quit.as_str(), 'q'),
            search: binding_key(kb.app.search.as_str(), '/'),
            daemon: binding_key(kb.app.daemon_menu.as_str(), 'd'),
            scroll_down: binding_key(kb.app.scroll_down.as_str(), 'j'),
            scroll_up: binding_key(kb.app.scroll_up.as_str(), 'k'),
            focus_services: 'h',
            focus_logs: 'l',
            switch_tab_left: binding_key(kb.app.switch_tab_left.as_str(), '['),
            switch_tab_right: binding_key(kb.app.switch_tab_right.as_str(), ']'),
            service_toggle: binding_key(kb.services.toggle.as_str(), 's'),
            log_auto_scroll: binding_key(kb.logs.toggle_auto_scroll.as_str(), ' '),
            auto_restart: binding_key(kb.services.auto_restart.as_str(), 'a'),
            refresh: binding_key(kb.app.refresh.as_str(), 'r'),
        }
    }
}

/// The interface state that keys move.
#[derive(Debug)]
pub struct InputState {
    pub focus: Focus,
    pub search_mode: bool,
    pub search_query: String,
    pub daemon_menu_mode: bool,
    pub daemon_start_mode: bool,
    pub daemon_action: DaemonAction,
    pub selected: Option<usize>,
    pub service_count: usize,
    pub log_scroll: u16,
    pub log_auto_scroll: bool,
    pub log_tab: LogTab,
}

/// The plain values of an [`InputState`].
pub struct InputView {
    pub focus: Focus,
    pub search_mode: bool,
    pub search_query: Seq<char>,
    pub daemon_menu_mode: bool,
    pub daemon_start_mode: bool,
    pub daemon_action: DaemonAction,
    pub selected: Option<usize>,
    pub service_count: usize,
    pub log_scroll: u16,
    pub log_auto_scroll: bool,
    pub log_tab: LogTab,
}

impl View for InputState {
    type V = InputView;

    open spec fn view(&self) -> InputView {
        InputView {
            focus: self.focus,
            search_mode: self.search_mode,
            search_query: self.search_query@,
            daemon_menu_mode: self.daemon_menu_mode,
            daemon_start_mode: self.daemon_start_mode,
            daemon_action: self.daemon_action,
            selected: self.selected,
            service_count: self.service_count,
            log_scroll: self.log_scroll,
            log_auto_scroll: self.log_auto_scroll,
            log_tab: self.log_tab,
        }
    }
}

/// What the application does after a key, besides the state change.
#[derive(Debug)]
pub enum KeyAction {
    /// Leave the interface.
    Quit,
    /// Nothing more.
    Nothing,
    /// Start or stop the selected project.
    ToggleService,
    /// Tell that the selected project is busy.
    BusyNotice,
    /// Toggle auto-restart of the selected project.
    ToggleAutoRestart,
    /// Refresh the statuses and tell so.
    Refresh,
    /// Run the chosen socket action.
    ExecuteDaemonAction,
    /// Select the first project whose name holds the query.
    SelectSearched(String),
}

/// The plain values of a [`KeyAction`].
pub enum KeyActionView {
    Quit,
    Nothing,
    ToggleService,
    BusyNotice,
    ToggleAutoRestart,
    Refresh,
    ExecuteDaemonAction,
    SelectSearched(Seq<char>),
}

impl View for KeyAction {
    type V = KeyActionView;

    open spec fn view(&self) -> KeyActionView {
        match self {
            KeyAction::Quit => KeyActionView::Quit,
            KeyAction::Nothing => KeyActionView::Nothing,
            KeyAction::ToggleService => KeyActionView::ToggleService,
            KeyAction::BusyNotice => KeyActionView::BusyNotice,
            KeyAction::ToggleAutoRestart => KeyActionView::ToggleAutoRestart,
            KeyAction::Refresh => KeyActionView::Refresh,
            KeyAction::ExecuteDaemonAction => KeyActionView::ExecuteDaemonAction,
            KeyAction::SelectSearched(q) => KeyActionView::SelectSearched(q@),
        }
    }
}

pub open spec fn is_char(key: Key, c: char) -> bool {
    key == Key::Char(c)
}

/// Moving the selection down: the next project, wrapping, with auto-scroll back on; an
/// empty list selects nothing.
pub open spec fn select_next(v: InputView) -> InputView {
    if v.service_count == 0 {
        InputView { selected: None, ..v }
    } else {
        InputView {
            selected: next_spec(v.selected, v.service_count),
            log_auto_scroll: true,
            ..v
        }
    }
}

/// Moving the selection up, likewise.
pub open spec fn select_previous(v: InputView) -> InputView {
    if v.service_count == 0 {
        InputView { selected: None, ..v }
    } else {
        InputView {
            selected: previous_spec(v.selected, v.service_count),
            log_auto_scroll: true,
            ..v
        }
    }
}

/// Scrolling the logs by `amount` lines (saturating), which pauses auto-scroll.
pub open spec fn scrolled(v: InputView, amount: int) -> InputView {
    let s = v.log_scroll + amount;
    InputView {
        log_scroll: (if s < 0 {
            0
        } else if s > u16::MAX {
            u16::MAX as int
        } else {
            s
        }) as u16,
        log_auto_scroll: false,
        ..v
    }
}

/// Showing a log view; showing the live view turns auto-scroll on.
pub open spec fn tab_shown(v: InputView, tab: LogTab) -> InputView {
    if tab == LogTab::LiveLogs {
        InputView { log_tab: LogTab::LiveLogs, log_auto_scroll: true, ..v }
    } else {
        InputView { log_tab: LogTab::Events, ..v }
    }
}

/// Whether moving down in the logs pane would push the scroll past its largest value.
pub open spec fn down_overflows(v: InputView, key: Key, keys: Keys) -> bool {
    v.focus == Focus::Logs && v.log_scroll == u16::MAX && (is_char(key, keys.scroll_down) || key
        == Key::Down)
}

/// A key outside the search box and the socket menu.
pub open spec fn normal_key_spec(v: InputView, key: Key, keys: Keys, busy: bool) -> (
    InputView,
    KeyActionView,
) {
    if is_char(key, keys.focus_services) {
        (InputView { focus: Focus::Services, ..v }, KeyActionView::Nothing)
    } else if is_char(key, keys.focus_logs) {
        (InputView { focus: Focus::Logs, ..v }, KeyActionView::Nothing)
    } else if is_char(key, keys.scroll_down) || key == Key::Down {
        if v.focus == Focus::Services {
            (select_next(v), KeyActionView::Nothing)
        } else {
            (
                InputView { log_scroll: (v.log_scroll + 1) as u16, log_auto_scroll: false, ..v },
                KeyActionView::Nothing,
            )
        }
    } else if is_char(key, keys.scroll_up) || key == Key::Up {
        if v.focus == Focus::Services {
            (select_previous(v), KeyActionView::Nothing)
        } else {
            (scrolled(v, -1), KeyActionView::Nothing)
        }
    } else if key == Key::PageDown && v.focus == Focus::Logs {
        (scrolled(v, 10), KeyActionView::Nothing)
    } else if key == Key::PageUp && v.focus == Focus::Logs {
        (scrolled(v, -10), KeyActionView::Nothing)
    } else if key == Key::Tab {
        (if v.focus == Focus::Services {
            select_next(v)
        } else {
            v
        }, KeyActionView::Nothing)
    } else if key == Key::BackTab {
        (if v.focus == Focus::Services {
            select_previous(v)
        } else {
            v
        }, KeyActionView::Nothing)
    } else if is_char(key, keys.service_toggle) && v.focus == Focus::Services {
        (v, if busy {
            KeyActionView::BusyNotice
        } else {
            KeyActionView::ToggleService
        })
    } else if is_char(key, keys.log_auto_scroll) && v.focus == Focus::Logs {
        (InputView { log_auto_scroll: !v.log_auto_scroll, ..v }, KeyActionView::Nothing)
    } else if is_char(key, keys.auto_restart) {
        (v, if v.focus == Focus::Services {
            KeyActionView::ToggleAutoRestart
        } else {
            KeyActionView::Nothing
        })
    } else if is_char(key, keys.refresh) {
        (v, KeyActionView::Refresh)
    } else if is_char(key, keys.switch_tab_left) {
        (tab_shown(v, LogTab::Events), KeyActionView::Nothing)
    } else if is_char(key, keys.switch_tab_right) {
        (tab_shown(v, LogTab::LiveLogs), KeyActionView::Nothing)
    } else {
        (v, KeyActionView::Nothing)
    }
}

/// The state after a key and the action it asks for. `busy` tells whether the selected
/// project is in transition.
///
/// Outside the search box, the quit key quits and the socket key opens the socket menu
/// (on its first action); the search key opens an empty search box from the services
/// pane. Esc closes the search box and the menus; Enter selects the searched project, or
/// confirms the menu, or runs the confirmed action. In the search box keys edit the query;
/// in the menu the move keys change the action; any other key goes to the panes, where
/// the left view key shows the events and the right one the live logs.
pub open spec fn handle_key_spec(v: InputView, key: Key, keys: Keys, busy: bool) -> (
    InputView,
    KeyActionView,
) {
    if is_char(key, keys.quit) && !v.search_mode {
        (v, KeyActionView::Quit)
    } else if is_char(key, keys.search) && !v.search_mode && v.focus == Focus::Services {
        (InputView { search_mode: true, search_query: seq![], ..v }, KeyActionView::Nothing)
    } else if is_char(key, keys.daemon) && !v.search_mode {
        (
            InputView { daemon_menu_mode: true, daemon_action: DaemonAction::Start, ..v },
            KeyActionView::Nothing,
        )
    } else if key == Key::Esc {
        (if v.search_mode {
            InputView {
                search_mode: false,
                daemon_start_mode: false,
                daemon_menu_mode: false,
                search_query: seq![],
                ..v
            }
        } else {
            v
        }, KeyActionView::Nothing)
    } else if key == Key::Enter {
        if v.search_mode {
            (
                InputView { search_mode: false, search_query: seq![], ..v },
                KeyActionView::SelectSearched(v.search_query),
            )
        } else if v.daemon_menu_mode {
            (
                InputView { daemon_menu_mode: false, daemon_start_mode: true, ..v },
                KeyActionView::Nothing,
            )
        } else if v.daemon_start_mode {
            (InputView { daemon_start_mode: false, ..v }, KeyActionView::ExecuteDaemonAction)
        } else {
            (v, KeyActionView::Nothing)
        }
    } else if v.search_mode {
        match key {
            Key::Char(c) => (
                InputView { search_query: v.search_query.push(c), ..v },
                KeyActionView::Nothing,
            ),
            Key::Backspace => (
                InputView {
                    search_query: if v.search_query.len() > 0 {
                        v.search_query.drop_last()
                    } else {
                        v.search_query
                    },
                    ..v
                },
                KeyActionView::Nothing,
            ),
            _ => (v, KeyActionView::Nothing),
        }
    } else if v.daemon_menu_mode {
        if is_char(key, keys.scroll_down) || key == Key::Down {
            (
                InputView {
                    daemon_action: match v.daemon_action {
                        DaemonAction::Start => DaemonAction::Stop,
                        DaemonAction::Stop => DaemonAction::Restart,
                        DaemonAction::Restart => DaemonAction::Start,
                    },
                    ..v
                },
                KeyActionView::Nothing,
            )
        } else if is_char(key, keys.scroll_up) || key == Key::Up {
            (
                InputView {
                    daemon_action: match v.daemon_action {
                        DaemonAction::Start => DaemonAction::Restart,
                        DaemonAction::Stop => DaemonAction::Start,
                        DaemonAction::Restart => DaemonAction::Stop,
                    },
                    ..v
                },
                KeyActionView::Nothing,
            )
        } else {
            (v, KeyActionView::Nothing)
        }
    } else if v.daemon_start_mode {
        (v, KeyActionView::Nothing)
    } else {
        normal_key_spec(v, key, keys, busy)
    }
}

/// The two view keys differ from each other and from every other bound key.
pub open spec fn tab_keys_distinct(keys: Keys) -> bool {
    let others = seq![
        keys.quit,
        keys.search,
        keys.daemon,
        keys.scroll_down,
        keys.scroll_up,
        keys.focus_services,
        keys.focus_logs,
        keys.service_toggle,
        keys.log_auto_scroll,
        keys.auto_restart,
        keys.refresh,
    ];
    &&& !others.contains(keys.switch_tab_left)
    &&& !others.contains(keys.switch_tab_right)
    &&& keys.switch_tab_left != keys.switch_tab_right
}

/// Law: outside the search box and the socket menus, the left view key shows the events
/// and the right one the live logs, whatever view was shown, and pressing the same key
/// again changes nothing.
pub proof fn law_tab_keys(v: InputView, keys: Keys, busy: bool)
    requires
        !v.search_mode,
        !v.daemon_menu_mode,
        !v.daemon_start_mode,
        tab_keys_distinct(keys),
    ensures
        ({
            let left = Key::Char(keys.switch_tab_left);
            let once = handle_key_spec(v, left, keys, busy);
            &&& once.0.log_tab == LogTab::Events
            &&& once.1 == KeyActionView::Nothing
            &&& handle_key_spec(once.0, left, keys, busy) == once
        }),
        ({
            let right = Key::Char(keys.switch_tab_right);
            let once = handle_key_spec(v, right, keys, busy);
            &&& once.0.log_tab == LogTab::LiveLogs
            &&& once.1 == KeyActionView::Nothing
            &&& handle_key_spec(once.0, right, keys, busy) == once
        }),
{
    let others = seq![
        keys.quit,
        keys.search,
        keys.daemon,
        keys.scroll_down,
        keys.scroll_up,
        keys.focus_services,
        keys.focus_logs,
        keys.service_toggle,
        keys.log_auto_scroll,
        keys.auto_restart,
        keys.refresh,
    ];
    assert(others[0] == keys.quit && others[1] == keys.search && others[2] == keys.daemon
        && others[3] == keys.scroll_down && others[4] == keys.scroll_up && others[5]
        == keys.focus_services && others[6] == keys.focus_logs && others[7] == keys.service_toggle
        && others[8] == keys.log_auto_scroll && others[9] == keys.auto_restart && others[10]
        == keys.refresh);
    assert(keys.switch_tab_left != keys.quit && keys.switch_tab_left != keys.search
        && keys.switch_tab_left != keys.daemon && keys.switch_tab_left != keys.scroll_down
        && keys.switch_tab_left != keys.scroll_up && keys.switch_tab_left != keys.focus_services
        && keys.switch_tab_left != keys.focus_logs && keys.switch_tab_left != keys.service_toggle
        && keys.switch_tab_left != keys.log_auto_scroll && keys.switch_tab_left
        != keys.auto_restart && keys.switch_tab_left != keys.refresh);
    assert(keys.switch_tab_right != keys.quit && keys.switch_tab_right != keys.search
        && keys.switch_tab_right != keys.daemon && keys.switch_tab_right != keys.scroll_down
        && keys.switch_tab_right != keys.scroll_up && keys.switch_tab_right != keys.focus_services
        && keys.switch_tab_right != keys.focus_logs && keys.switch_tab_right != keys.service_toggle
        && keys.switch_tab_right != keys.log_auto_scroll && keys.switch_tab_right
        != keys.auto_restart && keys.switch_tab_right != keys.refresh);
}

/// The auto-restart key differs from every key the panes look at before it.
pub open spec fn auto_restart_key_free(keys: Keys) -> bool {
    let earlier = seq![
        keys.quit,
        keys.search,
        keys.daemon,
        keys.focus_services,
        keys.focus_logs,
        keys.scroll_down,
        keys.scroll_up,
        keys.service_toggle,
        keys.log_auto_scroll,
    ];
    !earlier.contains(keys.auto_restart)
}

/// Law: outside the search box and the socket menus, the auto-restart key asks to toggle
/// the selected project's auto-restart when the services pane has the focus, and does
/// nothing in the logs pane; either way the interface state stays as it was.
pub proof fn law_auto_restart_key(v: InputView, keys: Keys, busy: bool)
    requires
        !v.search_mode,
        !v.daemon_menu_mode,
        !v.daemon_start_mode,
        auto_restart_key_free(keys),
    ensures
        v.focus == Focus::Services ==> handle_key_spec(v, Key::Char(keys.auto_restart), keys, busy)
            == (v, KeyActionView::ToggleAutoRestart),
        v.focus == Focus::Logs ==> handle_key_spec(v, Key::Char(keys.auto_restart), keys, busy)
            == (v, KeyActionView::Nothing),
{
    let earlier = seq![
        keys.quit,
        keys.search,
        keys.daemon,
        keys.focus_services,
        keys.focus_logs,
        keys.scroll_down,
        keys.scroll_up,
        keys.service_toggle,
        keys.log_auto_scroll,
    ];
    assert(earlier[0] == keys.quit && earlier[1] == keys.search && earlier[2] == keys.daemon
        && earlier[3] == keys.focus_services && earlier[4] == keys.focus_logs && earlier[5]
        == keys.scroll_down && earlier[6] == keys.scroll_up && earlier[7] == keys.service_toggle
        && earlier[8] == keys.log_auto_scroll);
    assert(keys.auto_restart != keys.quit && keys.auto_restart != keys.search && keys.auto_restart
        != keys.daemon && keys.auto_restart != keys.focus_services && keys.auto_restart
        != keys.focus_logs && keys.auto_restart != keys.scroll_down && keys.auto_restart
        != keys.scroll_up && keys.auto_restart != keys.service_toggle && keys.auto_restart
        != keys.log_auto_scroll);
}

/// Law: outside the search box the quit key quits, changing nothing; inside it every
/// character, the quit key's included, is typed into the query; Backspace removes the
/// last one; Esc closes the box and clears the query; Enter closes it and asks to select
/// the project the query names.
pub proof fn law_search_box(v: InputView, keys: Keys, busy: bool, c: char)
    ensures
        !v.search_mode ==> handle_key_spec(v, Key::Char(keys.quit), keys, busy) == (
        v,
        KeyActionView::Quit,
        ),
        v.search_mode ==> handle_key_spec(v, Key::Char(c), keys, busy) == (
        InputView { search_query: v.search_query.push(c), ..v },
        KeyActionView::Nothing,
        ),
        v.search_mode && v.search_query.len() > 0 ==> handle_key_spec(
            v,
            Key::Backspace,
            keys,
            busy,
        ) == (InputView { search_query: v.search_query.drop_last(), ..v }, KeyActionView::Nothing),
        v.search_mode ==> handle_key_spec(v, Key::Esc, keys, busy).0.search_mode == false
            && handle_key_spec(v, Key::Esc, keys, busy).0.search_query.len() == 0,
        v.search_mode ==> handle_key_spec(v, Key::Enter, keys, busy) == (
        InputView { search_mode: false, search_query: seq![], ..v },
        KeyActionView::SelectSearched(v.search_query),
        ),
        !v.search_mode && v.focus == Focus::Services && keys.search != keys.quit
            ==> handle_key_spec(v, Key::Char(keys.search), keys, busy) == (
        InputView { search_mode: true, search_query: seq![], ..v },
        KeyActionView::Nothing,
        ),
{
}

/// The socket action after moving down in the menu.
pub open spec fn menu_down(a: DaemonAction) -> DaemonAction {
    handle_key_spec(
        InputView {
            focus: Focus::Services,
            search_mode: false,
            search_query: seq![],
            daemon_menu_mode: true,
            daemon_start_mode: false,
            daemon_action: a,
            selected: None,
            service_count: 0,
            log_scroll: 0,
            log_auto_scroll: false,
            log_tab: LogTab::Events,
        },
        Key::Down,
        default_keys(),
        false,
    ).0.daemon_action
}

/// The socket action after moving up in the menu.
pub open spec fn menu_up(a: DaemonAction) -> DaemonAction {
    handle_key_spec(
        InputView {
            focus: Focus::Services,
            search_mode: false,
            search_query: seq![],
            daemon_menu_mode: true,
            daemon_start_mode: false,
            daemon_action: a,
            selected: None,
            service_count: 0,
            log_scroll: 0,
            log_auto_scroll: false,
            log_tab: LogTab::Events,
        },
        Key::Up,
        default_keys(),
        false,
    ).0.daemon_action
}

/// Some key bindings (the defaults), to state the menu's cycle with.
pub open spec fn default_keys() -> Keys {
    Keys {
        quit: 'q',
        search: '/',
        daemon: 'd',
        scroll_down: 'j',
        scroll_up: 'k',
        focus_services: 'h',
        focus_logs: 'l',
        switch_tab_left: 't',
        switch_tab_right: 'T',
        service_toggle: 's',
        log_auto_scroll: ' ',
        auto_restart: 'a',
        refresh: 'r',
    }
}

/// Law: the socket key opens the menu on its first action, start, from outside the search
/// box; in the menu, moving down goes through all three actions and comes back after
/// three moves, and moving up undoes moving down.
pub proof fn law_socket_menu(v: InputView, keys: Keys, busy: bool, a: DaemonAction)
    ensures
        !v.search_mode && keys.daemon != keys.quit && !(v.focus == Focus::Services && keys.daemon
            == keys.search) ==> handle_key_spec(v, Key::Char(keys.daemon), keys, busy) == (
        InputView { daemon_menu_mode: true, daemon_action: DaemonAction::Start, ..v },
        KeyActionView::Nothing,
        ),
        menu_down(a) != a,
        menu_down(menu_down(a)) != a,
        menu_down(menu_down(menu_down(a))) == a,
        menu_up(menu_down(a)) == a,
        menu_down(menu_up(a)) == a,
{
}

/// Whether [`handle_key`] can take the key: moving down in the logs pane stops at the
/// largest scroll position, which the key would pass.
pub open spec fn key_accepted(v: InputView, key: Key, keys: Keys) -> bool {
    let reaches_panes = !(is_char(key, keys.quit) && !v.search_mode) && !(is_char(
        key,
        keys.search,
    ) && !v.search_mode && v.focus == Focus::Services) && !(is_char(key, keys.daemon)
        && !v.search_mode) && key != Key::Esc && key != Key::Enter && !v.search_mode
        && !v.daemon_menu_mode && !v.daemon_start_mode;
    !(reaches_panes && !is_char(key, keys.focus_services) && !is_char(key, keys.focus_logs)
        && down_overflows(v, key, keys))
}

fn select_next_in(st: &mut InputState)
    ensures
        final(st)@ == select_next(old(st)@),
{
    if st.service_count == 0 {
        st.selected = None;
    } else {
        st.selected = next_selection(st.selected, st.service_count);
        st.log_auto_scroll = true;
    }
}

fn select_previous_in(st: &mut InputState)
    ensures
        final(st)@ == select_previous(old(st)@),
{
    if st.service_count == 0 {
        st.selected = None;
    } else {
        st.selected = previous_selection(st.selected, st.service_count);
        st.log_auto_scroll = true;
    }
}

fn scroll_in(st: &mut InputState, amount: i16)
    ensures
        final(st)@ == scrolled(old(st)@, amount as int),
{
    st.log_scroll = crate::app::state::scroll_by(st.log_scroll, amount);
    st.log_auto_scroll = false;
}

fn show_tab_in(st: &mut InputState, tab: LogTab)
    ensures
        final(st)@ == tab_shown(old(st)@, tab),
{
    if tab == LogTab::LiveLogs {
        st.log_tab = LogTab::LiveLogs;
        st.log_auto_scroll = true;
    } else {
        st.log_tab = LogTab::Events;
    }
}

fn normal_key(st: &mut InputState, key: Key, keys: &Keys, busy: bool) -> (a: KeyAction)
    requires
        !down_overflows(old(st)@, key, *keys) || is_char(key, keys.focus_services) || is_char(
            key,
            keys.focus_logs,
        ),
    ensures
        (final(st)@, a@) == normal_key_spec(old(st)@, key, *keys, busy),
{
    let is = |c: char| -> (b: bool)
        ensures
            b == (key == Key::Char(c)),
        { key == Key::Char(c) };
    if is(keys.focus_services) {
        st.focus = Focus::Services;
    } else if is(keys.focus_logs) {
        st.focus = Focus::Logs;
    } else if is(keys.scroll_down) || key == Key::Down {
        if st.focus == Focus::Services {
            select_next_in(st);
        } else {
            st.log_scroll = st.log_scroll + 1;
            st.log_auto_scroll = false;
        }
    } else if is(keys.scroll_up) || key == Key::Up {
        if st.focus == Focus::Services {
            select_previous_in(st);
        } else {
            scroll_in(st, -1);
        }
    } else if key == Key::PageDown && st.focus == Focus::Logs {
        scroll_in(st, 10);
    } else if key == Key::PageUp && st.focus == Focus::Logs {
        scroll_in(st, -10);
    } else if key == Key::Tab {
        if st.focus == Focus::Services {
            select_next_in(st);
        }
    } else if key == Key::BackTab {
        if st.focus == Focus::Services {
            select_previous_in(st);
        }
    } else if is(keys.service_toggle) && st.focus == Focus::Services {
        return if busy {
            KeyAction::BusyNotice
        } else {
            KeyAction::ToggleService
        };
    } else if is(keys.log_auto_scroll) && st.focus == Focus::Logs {
        st.log_auto_scroll = !st.log_auto_scroll;
    } else if is(keys.auto_restart) {
        if st.focus == Focus::Services {
            return KeyAction::ToggleAutoRestart;
        }
    } else if is(keys.refresh) {
        return KeyAction::Refresh;
    } else if is(keys.switch_tab_left) {
        show_tab_in(st, LogTab::Events);
    } else if is(keys.switch_tab_right) {
        show_tab_in(st, LogTab::LiveLogs);
    }
    KeyAction::Nothing
}

/// Applies a key to the interface state and returns the action it asks for (see
/// [`handle_key_spec`]).
pub fn handle_key(st: &mut InputState, key: Key, keys: &Keys, busy: bool) -> (a: KeyAction)
    requires
        key_accepted(old(st)@, key, *keys),
    ensures
        (final(st)@, a@) == handle_key_spec(old(st)@, key, *keys, busy),
{
    let is = |c: char| -> (b: bool)
        ensures
            b == (key == Key::Char(c)),
        { key == Key::Char(c) };
    if is(keys.quit) && !st.search_mode {
        return KeyAction::Quit;
    }
    if is(keys.search) && !st.search_mode && st.focus == Focus::Services {
        st.search_mode = true;
        st.search_query = String::new();
        return KeyAction::Nothing;
    }
    if is(keys.daemon) && !st.search_mode {
        st.daemon_menu_mode = true;
        st.daemon_action = DaemonAction::Start;
        return KeyAction::Nothing;
    }
    if key == Key::Esc {
        if st.search_mode {
            st.search_mode = false;
            st.daemon_start_mode = false;
            st.daemon_menu_mode = false;
            st.search_query = String::new();
        }
        return KeyAction::Nothing;
    }
    if key == Key::Enter {
        if st.search_mode {
            let mut query = String::new();
            std::mem::swap(&mut query, &mut st.search_query);
            st.search_mode = false;
            return KeyAction::SelectSearched(query);
        } else if st.daemon_menu_mode {
            st.daemon_menu_mode = false;
            st.daemon_start_mode = true;
        } else if st.daemon_start_mode {
            st.daemon_start_mode = false;
            return KeyAction::ExecuteDaemonAction;
        }
        return KeyAction::Nothing;
    }
    if st.search_mode {
        match key {
            Key::Char(c) => {
                push_char(&mut st.search_query, c);
            },
            Key::Backspace => {
                let q = pop_last(&st.search_query);
                st.search_query = q;
            },
            _ => {},
        }
        return KeyAction::Nothing;
    }
    if st.daemon_menu_mode {
        if is(keys.scroll_down) || key == Key::Down {
            st.daemon_action = daemon_next(st.daemon_action);
        } else if is(keys.scroll_up) || key == Key::Up {
            st.daemon_action = daemon_previous(st.daemon_action);
        }
        return KeyAction::Nothing;
    }
    if st.daemon_start_mode {
        return KeyAction::Nothing;
    }
    normal_key(st, key, keys, busy)
}

/// `s` without its last character, where it has one (`String::pop`).
fn pop_last(s: &String) -> (r: String)
    ensures
        r@ == (if s@.len() > 0 {
            s@.drop_last()
        } else {
            s@
        }),
{
    let v = crate::text::chars_of(s.as_str());
    if v.len() == 0 {
        return crate::text::owned(s.as_str());
    }
    let t = s.as_str().substring_char(0, v.len() - 1);
    assert(t@ =~= s@.drop_last());
    crate::text::owned(t)
}

/// Whether [`handle_key`] can take the key (see [`key_accepted`]).
pub fn accepts_key(st: &InputState, key: Key, keys: &Keys) -> (b: bool)
    ensures
        b == key_accepted(st@, key, *keys),
{
    let is_quit = key == Key::Char(keys.quit) && !st.search_mode;
    let is_search = key == Key::Char(keys.search) && !st.search_mode && st.focus == Focus::Services;
    let is_daemon = key == Key::Char(keys.daemon) && !st.search_mode;
    let reaches_panes = !is_quit && !is_search && !is_daemon && key != Key::Esc && key
        != Key::Enter && !st.search_mode && !st.daemon_menu_mode && !st.daemon_start_mode;
    let overflows = st.focus == Focus::Logs && st.log_scroll == u16::MAX && (key == Key::Char(
        keys.scroll_down,
    ) || key == Key::Down);
    !(reaches_panes && key != Key::Char(keys.focus_services) && key != Key::Char(keys.focus_logs)
        && overflows)
}

} // verus!
