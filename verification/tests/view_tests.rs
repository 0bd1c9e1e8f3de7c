use log_analyzer::state::{AppState, FocusArea, LogLevel, PluginDisplayInfo};
use log_analyzer::terminal_app::{App, Event, Key};

fn plugin(name: &str, enabled: bool, required: bool) -> PluginDisplayInfo {
    PluginDisplayInfo {
        name: name.to_string(),
        version: "1.0".to_string(),
        description: String::new(),
        enabled,
        required,
    }
}

#[test]
fn log_panel_keys_scroll_and_pause() {
    let mut app = App::new(AppState::new());
    assert!(app.is_running());
    assert_eq!(app.scroll_offset(), 0);
    app.handle_event(Event::Key(Key::Up));
    assert_eq!(app.scroll_offset(), 0);
    app.handle_event(Event::Key(Key::PageDown));
    app.handle_event(Event::Key(Key::Down));
    assert_eq!(app.scroll_offset(), 11);
    app.handle_event(Event::Key(Key::PageUp));
    assert_eq!(app.scroll_offset(), 1);
    app.handle_event(Event::Key(Key::Home));
    assert_eq!(app.scroll_offset(), 0);
    assert!(!app.state.is_paused());
    app.handle_event(Event::Key(Key::Char('p')));
    assert!(app.state.is_paused());
    app.handle_event(Event::Key(Key::Char(' ')));
    assert!(!app.state.is_paused());
    app.handle_event(Event::Tick);
    app.handle_event(Event::Resize);
    assert!(app.is_running());
}

#[test]
fn plugin_panel_keys_select_switch_and_restart() {
    let mut state = AppState::new();
    state.set_available_plugins(vec![plugin("a", true, true), plugin("b", true, false), plugin("c", false, false)]);
    let mut app = App::new(state);
    app.handle_event(Event::Key(Key::Tab));
    assert_eq!(app.state.focus(), FocusArea::PluginPanel);
    app.handle_event(Event::Key(Key::Up));
    assert_eq!(app.state.selected_plugin_index(), 2);
    app.handle_event(Event::Key(Key::Down));
    assert_eq!(app.state.selected_plugin_index(), 0);
    app.handle_event(Event::Key(Key::Char(' ')));
    assert!(app.state.available_plugins()[0].enabled);
    app.handle_event(Event::Key(Key::Down));
    app.handle_event(Event::Key(Key::Char(' ')));
    assert!(!app.state.available_plugins()[1].enabled);
    app.handle_event(Event::Key(Key::PageDown));
    assert_eq!(app.scroll_offset(), 0);
    assert!(!app.state.is_restart_requested());
    app.handle_event(Event::Key(Key::Enter));
    assert!(app.state.is_restart_requested());
    app.handle_event(Event::Key(Key::Tab));
    assert_eq!(app.state.focus(), FocusArea::Main);
}

#[test]
fn quit_keys_stop_the_view() {
    let mut app = App::new(AppState::new());
    app.handle_event(Event::Key(Key::Esc));
    assert!(!app.is_running());
    let mut app = App::new(AppState::new());
    app.handle_event(Event::Key(Key::Char('q')));
    assert!(!app.is_running());
    let mut app = App::new(AppState::new());
    app.handle_event(Event::Quit);
    assert!(!app.is_running());
}

#[test]
fn end_key_jumps_to_the_end_of_the_log() {
    let mut state = AppState::new();
    state.add_log(LogLevel::Info, "a".to_string());
    state.add_log(LogLevel::Info, "b".to_string());
    state.add_log(LogLevel::Info, "c".to_string());
    let mut app = App::new(state);
    app.handle_event(Event::Key(Key::End));
    assert_eq!(app.scroll_offset(), 3);
    app.handle_event(Event::Key(Key::Home));
    assert_eq!(app.scroll_offset(), 0);
}
