//! The keyboard handling of the interactive view: global keys, then keys by the
//! focused panel. Reading the terminal and drawing are the application's part.

use vstd::prelude::*;
use crate::state::{next_index, previous_index, AppState, AppStateView, FocusArea};

verus! {

/// A key, as far as the view tells keys apart.
#[derive(Debug, Clone, Copy, PartialEq, Eq, Structural)]
pub enum Key {
    Char(char),
    Esc,
    Tab,
    Up,
    Down,
    PageUp,
    PageDown,
    Home,
    End,
    Enter,
    Other,
}

/// What the view reacts to.
#[derive(Debug, Clone, Copy, PartialEq, Eq, Structural)]
pub enum Event {
    Key(Key),
    Mouse,
    Resize,
    Tick,
    Quit,
}

/// The interactive view: its state, whether it runs, and how far the log is scrolled.
pub struct App {
    pub state: AppState,
    running: bool,
    scroll_offset: u16,
}

/// Keys that stop the view in any panel.
pub open spec fn is_quit_key(k: Key) -> bool {
    k == Key::Char('q') || k == Key::Esc
}

/// The scroll offset after a key in the log panel, `n` entries being logged: `End`
/// goes past the last entry, which the log view shows as its last page.
pub open spec fn scrolled(offset: u16, k: Key, n: nat) -> u16 {
    match k {
        Key::Up => if offset >= 1 { (offset - 1) as u16 } else { 0 },
        Key::Down => if offset + 1 > u16::MAX { u16::MAX } else { (offset + 1) as u16 },
        Key::PageUp => if offset >= 10 { (offset - 10) as u16 } else { 0 },
        Key::PageDown => if offset + 10 > u16::MAX { u16::MAX } else { (offset + 10) as u16 },
        Key::Home => 0,
        Key::End => if n > u16::MAX { u16::MAX } else { n as u16 },
        _ => offset,
    }
}

/// Keys that pause or resume the log panel.
pub open spec fn is_pause_key(k: Key) -> bool {
    k == Key::Char('p') || k == Key::Char(' ')
}

/// The focus moved to the other panel, and nothing else changed.
pub open spec fn focus_toggled(before: AppState, after: AppState) -> bool {
    after@ == (AppStateView {
        focus: match before@.focus {
            FocusArea::Main => FocusArea::PluginPanel,
            FocusArea::PluginPanel => FocusArea::Main,
        },
        ..before@
    })
}

/// Pausing was switched, and nothing else changed.
pub open spec fn pause_toggled(before: AppState, after: AppState) -> bool {
    after@ == (AppStateView { paused: !before@.paused, ..before@ })
}

/// The selected plugin was switched on or off, unless it is required; nothing else
/// changed.
pub open spec fn selected_plugin_toggled(before: AppState, after: AppState) -> bool {
    &&& after@ == (AppStateView { plugins: after@.plugins, ..before@ })
    &&& after.plugins_spec().len() == before.plugins_spec().len()
    &&& forall|i: int|
        0 <= i < before.plugins_spec().len() ==> (#[trigger] after.plugins_spec()[i]).enabled == (if i
            == before.selected_spec() && !before.plugins_spec()[i].required {
            !before.plugins_spec()[i].enabled
        } else {
            before.plugins_spec()[i].enabled
        })
}

/// What a key does in the plugin panel.
pub open spec fn plugin_key(before: AppState, after: AppState, k: Key) -> bool {
    match k {
        Key::Up => after@ == (AppStateView {
            selected: previous_index(before@.selected, before@.plugins.len()),
            ..before@
        }),
        Key::Down => after@ == (AppStateView { selected: next_index(before@.selected, before@.plugins.len()), ..before@ }),
        Key::Char(' ') => selected_plugin_toggled(before, after),
        Key::Enter => after@ == (AppStateView { restart: true, ..before@ }),
        _ => after == before,
    }
}

/// What a key does in the log panel.
pub open spec fn log_key(before: App, after: App, k: Key) -> bool {
    &&& after.scroll_spec() == scrolled(before.scroll_spec(), k, before.state_spec().logs_spec().len())
    &&& if is_pause_key(k) {
        pause_toggled(before.state_spec(), after.state_spec())
    } else {
        after.state_spec() == before.state_spec()
    }
}

/// The view `after` is the view `before` once it has reacted to the event.
pub open spec fn handled(before: App, after: App, event: Event) -> bool {
    match event {
        Event::Quit => !after.running_spec() && after.state_spec() == before.state_spec() && after.scroll_spec()
            == before.scroll_spec(),
        Event::Key(k) => if is_quit_key(k) {
            !after.running_spec() && after.state_spec() == before.state_spec() && after.scroll_spec() == before.scroll_spec()
        } else if k == Key::Tab {
            &&& after.running_spec() == before.running_spec()
            &&& after.scroll_spec() == before.scroll_spec()
            &&& focus_toggled(before.state_spec(), after.state_spec())
        } else {
            &&& after.running_spec() == before.running_spec()
            &&& match before.state_spec().focus_spec() {
                FocusArea::Main => log_key(before, after, k),
                FocusArea::PluginPanel => after.scroll_spec() == before.scroll_spec() && plugin_key(
                    before.state_spec(),
                    after.state_spec(),
                    k,
                ),
            }
        },
        _ => after == before,
    }
}

impl App {
    /// The state of the view.
    pub closed spec fn state_spec(&self) -> AppState {
        self.state
    }

    /// Whether the view runs.
    pub closed spec fn running_spec(&self) -> bool {
        self.running
    }

    /// How far the log is scrolled.
    pub closed spec fn scroll_spec(&self) -> u16 {
        self.scroll_offset
    }

    /// A running view over the state, scrolled to the top.
    pub fn new(state: AppState) -> (r: Self)
        ensures
            r.state_spec() == state,
            r.running_spec(),
            r.scroll_spec() == 0,
    {
        App { state, running: true, scroll_offset: 0 }
    }

    /// Whether the view runs.
    pub fn is_running(&self) -> (r: bool)
        ensures
            r == self.running_spec(),
    {
        self.running
    }

    /// How far the log is scrolled.
    pub fn scroll_offset(&self) -> (r: u16)
        ensures
            r == self.scroll_spec(),
    {
        self.scroll_offset
    }

    /// Stops the view.
    pub fn quit(&mut self)
        ensures
            !final(self).running_spec(),
            final(self).scroll_spec() == old(self).scroll_spec(),
            final(self).state_spec() == old(self).state_spec(),
    {
        self.running = false;
    }

    /// Reacts to an event: `q`, `Esc` and a quit event stop the view and `Tab` moves
    /// the focus, in any panel. In the log panel `p` and space pause or resume, the
    /// arrows scroll by one line, the page keys by ten, `Home` goes to the top and `End` to the end; in
    /// the plugin panel the arrows move the selection, space switches the selected
    /// plugin and `Enter` asks for a restart. Other events change nothing.
    pub fn handle_event(&mut self, event: Event)
        ensures
            handled(*old(self), *final(self), event),
    {
        let focus = self.state.focus();
        match event {
            Event::Quit => {
                self.quit();
            },
            Event::Key(key) => {
                match key {
                    Key::Char('q') | Key::Esc => {
                        self.quit();
                        return;
                    },
                    Key::Tab => {
                        self.state.toggle_focus();
                        return;
                    },
                    _ => {},
                }
                match focus {
                    FocusArea::Main => match key {
                        Key::Char('p') | Key::Char(' ') => {
                            self.state.toggle_pause();
                        },
                        Key::Up => {
                            self.scroll_offset = self.scroll_offset.saturating_sub(1);
                        },
                        Key::Down => {
                            self.scroll_offset = self.scroll_offset.saturating_add(1);
                        },
                        Key::PageUp => {
                            self.scroll_offset = self.scroll_offset.saturating_sub(10);
                        },
                        Key::PageDown => {
                            self.scroll_offset = self.scroll_offset.saturating_add(10);
                        },
                        Key::Home => {
                            self.scroll_offset = 0;
                        },
                        Key::End => {
                            let n = self.state.log_count();
                            self.scroll_offset = if n > 65535 {
                                65535
                            } else {
                                n as u16
                            };
                        },
                        _ => {},
                    },
                    FocusArea::PluginPanel => match key {
                        Key::Up => {
                            self.state.select_previous_plugin();
                        },
                        Key::Down => {
                            self.state.select_next_plugin();
                        },
                        Key::Char(' ') => {
                            self.state.toggle_selected_plugin();
                        },
                        Key::Enter => {
                            self.state.request_restart();
                        },
                        _ => {},
                    },
                }
            },
            Event::Tick => {},
            Event::Resize => {},
            Event::Mouse => {},
        }
    }
}

} // verus!
