//! State of the interactive view: workflow phase, log buffer, focus and the
//! plugin list that the user toggles.

use vstd::prelude::*;
use crate::text::{decimal, owned, push_char, push_signed_decimal, push_str, signed_decimal};

verus! {

/// Phase of the workflow.
#[derive(Debug, Clone, Copy, PartialEq, Eq, Structural)]
pub enum WorkflowPhase {
    Initializing,
    Connecting,
    Discovering,
    Downloading,
    SelectingPlugin,
    Analyzing,
    Completed,
    Error,
}

/// The label of a phase.
pub open spec fn phase_label(p: WorkflowPhase) -> Seq<char> {
    match p {
        WorkflowPhase::Initializing => "初始化"@,
        WorkflowPhase::Connecting => "连接远程"@,
        WorkflowPhase::Discovering => "发现文件"@,
        WorkflowPhase::Downloading => "下载文件"@,
        WorkflowPhase::SelectingPlugin => "选择插件"@,
        WorkflowPhase::Analyzing => "分析中"@,
        WorkflowPhase::Completed => "完成"@,
        WorkflowPhase::Error => "错误"@,
    }
}

impl WorkflowPhase {
    /// The label shown for the phase.
    pub fn as_str(&self) -> (r: &'static str)
        ensures
            r@ == phase_label(*self),
    {
        match self {
            WorkflowPhase::Initializing => "初始化",
            WorkflowPhase::Connecting => "连接远程",
            WorkflowPhase::Discovering => "发现文件",
            WorkflowPhase::Downloading => "下载文件",
            WorkflowPhase::SelectingPlugin => "选择插件",
            WorkflowPhase::Analyzing => "分析中",
            WorkflowPhase::Completed => "完成",
            WorkflowPhase::Error => "错误",
        }
    }
}

/// Severity of a log entry.
#[derive(Debug, Clone, Copy, PartialEq, Eq, Structural)]
pub enum LogLevel {
    Trace,
    Debug,
    Info,
    Warn,
    Error,
}

/// The five-character label of a level.
pub open spec fn level_label(l: LogLevel) -> Seq<char> {
    match l {
        LogLevel::Trace => "TRACE"@,
        LogLevel::Debug => "DEBUG"@,
        LogLevel::Info => "INFO "@,
        LogLevel::Warn => "WARN "@,
        LogLevel::Error => "ERROR"@,
    }
}

impl LogLevel {
    /// The label shown for the level, padded to five characters.
    pub fn as_str(&self) -> (r: &'static str)
        ensures
            r@ == level_label(*self),
    {
        match self {
            LogLevel::Trace => "TRACE",
            LogLevel::Debug => "DEBUG",
            LogLevel::Info => "INFO ",
            LogLevel::Warn => "WARN ",
            LogLevel::Error => "ERROR",
        }
    }
}

/// A log entry; the time is in nanoseconds since the epoch.
#[derive(Debug, Clone)]
pub struct LogEntry {
    pub timestamp_nanos: i64,
    pub level: LogLevel,
    pub message: String,
}

/// A plugin as listed in the plugin panel.
#[derive(Debug, Clone)]
pub struct PluginDisplayInfo {
    pub name: String,
    pub version: String,
    pub description: String,
    pub enabled: bool,
    /// A required plugin cannot be disabled.
    pub required: bool,
}

/// Which panel has the keyboard focus.
#[derive(Debug, Clone, Copy, PartialEq, Eq, Structural)]
pub enum FocusArea {
    Main,
    PluginPanel,
}

/// The most log entries kept.
pub const MAX_LOGS: usize = 1000;

#[verifier::external_type_specification]
#[verifier::external_body]
pub struct ExSystemTime(std::time::SystemTime);

/// The current time of the system clock (`SystemTime::now`). Nothing is promised of
/// the value.
#[verifier::external_body]
fn system_now() -> std::time::SystemTime {
    std::time::SystemTime::now()
}

/// How long after the Unix epoch `t` lies (`SystemTime::duration_since(UNIX_EPOCH)`);
/// `None` for a time before the epoch. Nothing is promised of the value.
#[verifier::external_body]
fn since_epoch(t: &std::time::SystemTime) -> Option<core::time::Duration> {
    match t.duration_since(std::time::UNIX_EPOCH) {
        Ok(d) => Some(d),
        Err(_) => None,
    }
}

/// The whole nanoseconds of a duration (`Duration::as_nanos`). Nothing is promised of
/// the value.
#[verifier::external_body]
fn duration_nanos(d: &core::time::Duration) -> u128 {
    d.as_nanos()
}

/// The current time in nanoseconds since the epoch; `None` when the clock reads a
/// time before the epoch or past what `i64` holds (the year 2262).
fn now_nanos() -> Option<i64> {
    match since_epoch(&system_now()) {
        Some(d) => {
            let n = duration_nanos(&d);
            if n <= 9_223_372_036_854_775_807u128 {
                Some(n as i64)
            } else {
                None
            }
        },
        None => None,
    }
}

/// The current time in nanoseconds since the epoch, saturated at `i64::MAX`.
fn current_time_nanos() -> i64 {
    match now_nanos() {
        Some(t) => t,
        None => i64::MAX,
    }
}

/// The state of the interactive view.
pub struct AppState {
    phase: WorkflowPhase,
    focus: FocusArea,
    selected_plugin_index: usize,
    restart_requested: bool,
    logs: Vec<LogEntry>,
    current_file: Option<String>,
    current_plugin: Option<String>,
    available_plugins: Vec<PluginDisplayInfo>,
    error_message: Option<String>,
    start_time: i64,
    end_time: Option<i64>,
    paused: bool,
}

/// `v` with its first element removed when it is longer than `max`.
pub open spec fn capped(v: Seq<LogEntry>, max: nat) -> Seq<LogEntry> {
    if v.len() > max {
        v.drop_first()
    } else {
        v
    }
}

/// The last `count` entries of `v`, oldest first (all of them when fewer).
pub open spec fn last_n(v: Seq<LogEntry>, count: nat) -> Seq<LogEntry> {
    if count >= v.len() {
        v
    } else {
        v.skip(v.len() - count)
    }
}

/// The names of the enabled plugins, in order.
pub open spec fn enabled_names(ps: Seq<PluginDisplayInfo>) -> Seq<Seq<char>>
    decreases ps.len(),
{
    if ps.len() == 0 {
        seq![]
    } else {
        let prev = enabled_names(ps.drop_last());
        if ps.last().enabled {
            prev.push(ps.last().name@)
        } else {
            prev
        }
    }
}

/// The index before `i` among `n` plugins, wrapping to the last one.
pub open spec fn previous_index(i: nat, n: nat) -> nat {
    if n == 0 {
        i
    } else if i > 0 {
        (i - 1) as nat
    } else {
        (n - 1) as nat
    }
}

/// The index after `i` among `n` plugins, wrapping to the first one.
pub open spec fn next_index(i: nat, n: nat) -> nat {
    if n == 0 {
        i
    } else {
        (i + 1) % n
    }
}

/// The state of the interactive view as plain values.
pub struct AppStateView {
    pub phase: WorkflowPhase,
    pub focus: FocusArea,
    pub selected: nat,
    pub restart: bool,
    pub logs: Seq<LogEntry>,
    pub current_file: Option<String>,
    pub current_plugin: Option<String>,
    pub plugins: Seq<PluginDisplayInfo>,
    pub error: Option<String>,
    pub start: i64,
    pub end: Option<i64>,
    pub paused: bool,
}

impl View for AppState {
    type V = AppStateView;

    closed spec fn view(&self) -> AppStateView {
        AppStateView {
            phase: self.phase,
            focus: self.focus,
            selected: self.selected_plugin_index as nat,
            restart: self.restart_requested,
            logs: self.logs@,
            current_file: self.current_file,
            current_plugin: self.current_plugin,
            plugins: self.available_plugins@,
            error: self.error_message,
            start: self.start_time,
            end: self.end_time,
            paused: self.paused,
        }
    }
}

impl AppState {
    pub open spec fn phase_spec(&self) -> WorkflowPhase {
        self@.phase
    }

    pub open spec fn focus_spec(&self) -> FocusArea {
        self@.focus
    }

    pub open spec fn selected_spec(&self) -> nat {
        self@.selected
    }

    pub open spec fn restart_spec(&self) -> bool {
        self@.restart
    }

    pub open spec fn logs_spec(&self) -> Seq<LogEntry> {
        self@.logs
    }

    pub open spec fn current_file_spec(&self) -> Option<String> {
        self@.current_file
    }

    pub open spec fn current_plugin_spec(&self) -> Option<String> {
        self@.current_plugin
    }

    pub open spec fn plugins_spec(&self) -> Seq<PluginDisplayInfo> {
        self@.plugins
    }

    pub open spec fn error_spec(&self) -> Option<String> {
        self@.error
    }

    pub open spec fn start_spec(&self) -> i64 {
        self@.start
    }

    pub open spec fn end_spec(&self) -> Option<i64> {
        self@.end
    }

    pub open spec fn paused_spec(&self) -> bool {
        self@.paused
    }

    /// The log buffer never holds more than `MAX_LOGS` entries.
    pub open spec fn wf(&self) -> bool {
        self@.logs.len() <= MAX_LOGS
    }

    /// A fresh state: initializing, main panel focused, nothing logged or selected.
    pub fn new() -> (r: Self)
        ensures
            r.wf(),
            r.phase_spec() == WorkflowPhase::Initializing,
            r.focus_spec() == FocusArea::Main,
            r.selected_spec() == 0,
            !r.restart_spec(),
            r.logs_spec().len() == 0,
            r.current_file_spec() is None,
            r.current_plugin_spec() is None,
            r.plugins_spec().len() == 0,
            r.error_spec() is None,
            r.end_spec() is None,
            !r.paused_spec(),
    {
        AppState {
            phase: WorkflowPhase::Initializing,
            focus: FocusArea::Main,
            selected_plugin_index: 0,
            restart_requested: false,
            logs: Vec::new(),
            current_file: None,
            current_plugin: None,
            available_plugins: Vec::new(),
            error_message: None,
            start_time: current_time_nanos(),
            end_time: None,
            paused: false,
        }
    }

    /// Sets the workflow phase.
    pub fn set_phase(&mut self, phase: WorkflowPhase)
        ensures
            final(self)@ == (AppStateView { phase: phase, ..old(self)@ }),
            final(self).phase_spec() == phase,
            final(self).logs_spec() == old(self).logs_spec(),
            final(self).plugins_spec() == old(self).plugins_spec(),
            final(self).selected_spec() == old(self).selected_spec(),
            final(self).wf() == old(self).wf(),
    {
        self.phase = phase;
    }

    /// The workflow phase.
    pub fn phase(&self) -> (r: WorkflowPhase)
        ensures
            r == self.phase_spec(),
    {
        self.phase
    }

    /// Appends a log entry stamped with the current time; the oldest entry is
    /// dropped when the buffer would exceed `MAX_LOGS` entries.
    pub fn add_log(&mut self, level: LogLevel, message: String)
        requires
            old(self).wf(),
        ensures
            final(self)@ == (AppStateView { logs: final(self)@.logs, ..old(self)@ }),
            final(self).wf(),
            final(self).logs_spec().len() == (if old(self).logs_spec().len() + 1 > MAX_LOGS {
                MAX_LOGS as int
            } else {
                old(self).logs_spec().len() + 1 as int
            }),
            exists|t: i64|
                final(self).logs_spec() == capped(
                    old(self).logs_spec().push(
                        LogEntry { timestamp_nanos: t, level: level, message: message },
                    ),
                    MAX_LOGS as nat,
                ),
            final(self).phase_spec() == old(self).phase_spec(),
            final(self).plugins_spec() == old(self).plugins_spec(),
            final(self).selected_spec() == old(self).selected_spec(),
    {
        let t = current_time_nanos();
        let entry = LogEntry { timestamp_nanos: t, level, message };
        self.logs.push(entry);
        if self.logs.len() > MAX_LOGS {
            self.logs.remove(0);
        }
        proof {
            let pushed = old(self).logs_spec().push(
                LogEntry { timestamp_nanos: t, level: level, message: message },
            );
            assert(self.logs@ == capped(pushed, MAX_LOGS as nat));
        }
    }

    /// The latest `count` log entries, oldest first.
    pub fn logs(&self, count: usize) -> (r: Vec<LogEntry>)
        ensures
            r@ == last_n(self.logs_spec(), count as nat),
    {
        let n = self.logs.len();
        let start = if count >= n {
            0
        } else {
            n - count
        };
        let mut r: Vec<LogEntry> = Vec::new();
        let mut i = start;
        while i < n
            invariant
                start <= i <= n == self.logs@.len(),
                r@ == self.logs@.subrange(start as int, i as int),
            decreases n - i,
        {
            let e = &self.logs[i];
            r.push(LogEntry { timestamp_nanos: e.timestamp_nanos, level: e.level, message: e.message.clone() });
            assert(self.logs@.subrange(start as int, i + 1) == self.logs@.subrange(
                start as int,
                i as int,
            ).push(self.logs@[i as int]));
            i += 1;
        }
        assert(self.logs@.subrange(start as int, n as int) == last_n(self.logs@, count as nat));
        r
    }

    /// All log entries, oldest first.
    pub fn all_logs(&self) -> (r: Vec<LogEntry>)
        ensures
            r@ == self.logs_spec(),
    {
        let r = self.logs(self.logs.len());
        r
    }

    /// How many log entries are kept.
    pub fn log_count(&self) -> (r: usize)
        ensures
            r == self.logs_spec().len(),
    {
        self.logs.len()
    }

    /// Sets the file being analysed.
    pub fn set_current_file(&mut self, file: Option<String>)
        ensures
            final(self)@ == (AppStateView { current_file: file, ..old(self)@ }),
            final(self).current_file_spec() == file,
            final(self).logs_spec() == old(self).logs_spec(),
            final(self).phase_spec() == old(self).phase_spec(),
            final(self).wf() == old(self).wf(),
    {
        self.current_file = file;
    }

    /// The file being analysed.
    pub fn current_file(&self) -> (r: Option<String>)
        ensures
            r == self.current_file_spec(),
    {
        self.current_file.clone()
    }

    /// Sets the plugin in use.
    pub fn set_current_plugin(&mut self, plugin: Option<String>)
        ensures
            final(self)@ == (AppStateView { current_plugin: plugin, ..old(self)@ }),
            final(self).current_plugin_spec() == plugin,
            final(self).logs_spec() == old(self).logs_spec(),
            final(self).phase_spec() == old(self).phase_spec(),
            final(self).wf() == old(self).wf(),
    {
        self.current_plugin = plugin;
    }

    /// The plugin in use.
    pub fn current_plugin(&self) -> (r: Option<String>)
        ensures
            r == self.current_plugin_spec(),
    {
        self.current_plugin.clone()
    }

    /// Sets or clears the error message; setting one moves the workflow to the error phase.
    pub fn set_error(&mut self, error: Option<String>)
        ensures
            final(self)@ == (AppStateView { error: error, phase: if error is Some { WorkflowPhase::Error } else { old(self)@.phase }, ..old(self)@ }),
            final(self).error_spec() == error,
            final(self).phase_spec() == (if error is Some {
                WorkflowPhase::Error
            } else {
                old(self).phase_spec()
            }),
            final(self).logs_spec() == old(self).logs_spec(),
            final(self).wf() == old(self).wf(),
    {
        if error.is_some() {
            self.phase = WorkflowPhase::Error;
        }
        self.error_message = error;
    }

    /// The error message, if any.
    pub fn error_message(&self) -> (r: Option<String>)
        ensures
            r == self.error_spec(),
    {
        self.error_message.clone()
    }

    /// Marks the workflow completed and records the end time.
    pub fn mark_completed(&mut self)
        ensures
            final(self)@ == (AppStateView { phase: WorkflowPhase::Completed, end: final(self)@.end, ..old(self)@ }),
            final(self).phase_spec() == WorkflowPhase::Completed,
            final(self).end_spec() is Some,
            final(self).start_spec() == old(self).start_spec(),
            final(self).logs_spec() == old(self).logs_spec(),
            final(self).wf() == old(self).wf(),
    {
        self.phase = WorkflowPhase::Completed;
        self.end_time = Some(current_time_nanos());
    }

    /// Whole seconds from the start to the end (or to `now` while running), truncated
    /// toward zero, given the end time.
    pub open spec fn elapsed_between(start: i64, end: i64) -> int {
        (end - start) / 1_000_000_000
    }

    /// Seconds elapsed between `start` and `end` nanoseconds, truncated toward zero.
    pub fn seconds_between(start: i64, end: i64) -> (r: i64)
        ensures
            r as int == (if end >= start {
                (end - start) / 1_000_000_000
            } else {
                -((start - end) / 1_000_000_000)
            }),
    {
        let d: i128 = end as i128 - start as i128;
        if d >= 0 {
            (d / 1_000_000_000) as i64
        } else {
            -(((-d) / 1_000_000_000) as i64)
        }
    }

    /// Whole seconds from the start until the end, or until now while still running.
    pub fn elapsed_seconds(&self) -> (r: i64)
        ensures
            self.end_spec() matches Some(e) ==> r as int == (if e >= self.start_spec() {
                (e - self.start_spec()) / 1_000_000_000
            } else {
                -((self.start_spec() - e) / 1_000_000_000)
            }),
    {
        let end = match self.end_time {
            Some(e) => e,
            None => current_time_nanos(),
        };
        Self::seconds_between(self.start_time, end)
    }

    /// Toggles pausing.
    pub fn toggle_pause(&mut self)
        ensures
            final(self)@ == (AppStateView { paused: !old(self)@.paused, ..old(self)@ }),
            final(self).paused_spec() == !old(self).paused_spec(),
            final(self).logs_spec() == old(self).logs_spec(),
            final(self).phase_spec() == old(self).phase_spec(),
            final(self).wf() == old(self).wf(),
    {
        self.paused = !self.paused;
    }

    /// Whether the view is paused.
    pub fn is_paused(&self) -> (r: bool)
        ensures
            r == self.paused_spec(),
    {
        self.paused
    }

    /// Replaces the plugin list (the selected index is kept).
    pub fn set_available_plugins(&mut self, plugins: Vec<PluginDisplayInfo>)
        ensures
            final(self)@ == (AppStateView { plugins: plugins@, ..old(self)@ }),
            final(self).plugins_spec() == plugins@,
            final(self).selected_spec() == old(self).selected_spec(),
            final(self).logs_spec() == old(self).logs_spec(),
            final(self).wf() == old(self).wf(),
    {
        self.available_plugins = plugins;
    }

    /// The plugin list.
    pub fn available_plugins(&self) -> (r: Vec<PluginDisplayInfo>)
        ensures
            r@.len() == self.plugins_spec().len(),
            forall|i: int|
                0 <= i < r@.len() ==> {
                    &&& (#[trigger] r@[i]).name == self.plugins_spec()[i].name
                    &&& r@[i].version == self.plugins_spec()[i].version
                    &&& r@[i].description == self.plugins_spec()[i].description
                    &&& r@[i].enabled == self.plugins_spec()[i].enabled
                    &&& r@[i].required == self.plugins_spec()[i].required
                },
    {
        let mut r: Vec<PluginDisplayInfo> = Vec::new();
        let mut i: usize = 0;
        while i < self.available_plugins.len()
            invariant
                i <= self.available_plugins@.len(),
                r@.len() == i,
                forall|k: int|
                    0 <= k < i ==> {
                        &&& (#[trigger] r@[k]).name == self.available_plugins@[k].name
                        &&& r@[k].version == self.available_plugins@[k].version
                        &&& r@[k].description == self.available_plugins@[k].description
                        &&& r@[k].enabled == self.available_plugins@[k].enabled
                        &&& r@[k].required == self.available_plugins@[k].required
                    },
            decreases self.available_plugins.len() - i,
        {
            let p = &self.available_plugins[i];
            r.push(
                PluginDisplayInfo {
                    name: p.name.clone(),
                    version: p.version.clone(),
                    description: p.description.clone(),
                    enabled: p.enabled,
                    required: p.required,
                },
            );
            i += 1;
        }
        r
    }

    /// Sets the focused panel.
    pub fn set_focus(&mut self, focus: FocusArea)
        ensures
            final(self)@ == (AppStateView { focus: focus, ..old(self)@ }),
            final(self).focus_spec() == focus,
            final(self).logs_spec() == old(self).logs_spec(),
            final(self).wf() == old(self).wf(),
    {
        self.focus = focus;
    }

    /// The focused panel.
    pub fn focus(&self) -> (r: FocusArea)
        ensures
            r == self.focus_spec(),
    {
        self.focus
    }

    /// Moves the focus to the other panel.
    pub fn toggle_focus(&mut self)
        ensures
            final(self)@ == (AppStateView { focus: match old(self)@.focus { FocusArea::Main => FocusArea::PluginPanel, FocusArea::PluginPanel => FocusArea::Main }, ..old(self)@ }),
            final(self).focus_spec() == (match old(self).focus_spec() {
                FocusArea::Main => FocusArea::PluginPanel,
                FocusArea::PluginPanel => FocusArea::Main,
            }),
            final(self).logs_spec() == old(self).logs_spec(),
            final(self).wf() == old(self).wf(),
    {
        self.focus = match self.focus {
            FocusArea::Main => FocusArea::PluginPanel,
            FocusArea::PluginPanel => FocusArea::Main,
        };
    }

    /// Asks for the workflow to be restarted.
    pub fn request_restart(&mut self)
        ensures
            final(self)@ == (AppStateView { restart: true, ..old(self)@ }),
            final(self).restart_spec(),
            final(self).logs_spec() == old(self).logs_spec(),
            final(self).wf() == old(self).wf(),
    {
        self.restart_requested = true;
    }

    /// Whether a restart was asked for.
    pub fn is_restart_requested(&self) -> (r: bool)
        ensures
            r == self.restart_spec(),
    {
        self.restart_requested
    }

    /// Withdraws a restart request.
    pub fn clear_restart_request(&mut self)
        ensures
            final(self)@ == (AppStateView { restart: false, ..old(self)@ }),
            !final(self).restart_spec(),
            final(self).logs_spec() == old(self).logs_spec(),
            final(self).wf() == old(self).wf(),
    {
        self.restart_requested = false;
    }

    /// Resets the run for a restart: phase, progress, logs, file, plugin, error, times,
    /// pause and restart flags; the plugin list, selection and focus stay.
    pub fn reset_for_restart(&mut self)
        ensures
            final(self)@ == (AppStateView { phase: WorkflowPhase::Initializing, logs: Seq::empty(), current_file: None, current_plugin: None, error: None, start: final(self)@.start, end: None, paused: false, restart: false, ..old(self)@ }),
            final(self).wf(),
            final(self).phase_spec() == WorkflowPhase::Initializing,
            final(self).logs_spec().len() == 0,
            final(self).current_file_spec() is None,
            final(self).current_plugin_spec() is None,
            final(self).error_spec() is None,
            final(self).end_spec() is None,
            !final(self).paused_spec(),
            !final(self).restart_spec(),
            final(self).plugins_spec() == old(self).plugins_spec(),
            final(self).selected_spec() == old(self).selected_spec(),
            final(self).focus_spec() == old(self).focus_spec(),
    {
        self.phase = WorkflowPhase::Initializing;
        self.logs.clear();
        self.current_file = None;
        self.current_plugin = None;
        self.error_message = None;
        self.start_time = current_time_nanos();
        self.end_time = None;
        self.paused = false;
        self.restart_requested = false;
    }

    /// The index of the selected plugin.
    pub fn selected_plugin_index(&self) -> (r: usize)
        ensures
            r as nat == self.selected_spec(),
    {
        self.selected_plugin_index
    }

    /// Selects the plugin at `index`; an index out of range is ignored.
    pub fn set_selected_plugin_index(&mut self, index: usize)
        ensures
            final(self)@ == (AppStateView { selected: if index < old(self)@.plugins.len() { index as nat } else { old(self)@.selected }, ..old(self)@ }),
            final(self).selected_spec() == (if index < old(self).plugins_spec().len() {
                index as nat
            } else {
                old(self).selected_spec()
            }),
            final(self).plugins_spec() == old(self).plugins_spec(),
            final(self).logs_spec() == old(self).logs_spec(),
            final(self).wf() == old(self).wf(),
    {
        if index < self.available_plugins.len() {
            self.selected_plugin_index = index;
        }
    }

    /// Selects the previous plugin, wrapping from the first to the last.
    pub fn select_previous_plugin(&mut self)
        ensures
            final(self)@ == (AppStateView { selected: previous_index(old(self)@.selected, old(self)@.plugins.len()), ..old(self)@ }),
            final(self).selected_spec() == previous_index(
                old(self).selected_spec(),
                old(self).plugins_spec().len(),
            ),
            final(self).plugins_spec() == old(self).plugins_spec(),
            final(self).logs_spec() == old(self).logs_spec(),
            final(self).wf() == old(self).wf(),
    {
        if self.available_plugins.len() > 0 {
            if self.selected_plugin_index > 0 {
                self.selected_plugin_index = self.selected_plugin_index - 1;
            } else {
                self.selected_plugin_index = self.available_plugins.len() - 1;
            }
        }
    }

    /// Selects the next plugin, wrapping from the last to the first.
    pub fn select_next_plugin(&mut self)
        ensures
            final(self)@ == (AppStateView { selected: next_index(old(self)@.selected, old(self)@.plugins.len()), ..old(self)@ }),
            final(self).selected_spec() == next_index(
                old(self).selected_spec(),
                old(self).plugins_spec().len(),
            ),
            final(self).plugins_spec() == old(self).plugins_spec(),
            final(self).logs_spec() == old(self).logs_spec(),
            final(self).wf() == old(self).wf(),
    {
        let n = self.available_plugins.len();
        if n > 0 {
            let i = self.selected_plugin_index;
            let next = ((i % n) + 1) % n;
            proof {
                let ii = i as int;
                let nn = n as int;
                vstd::arithmetic::div_mod::lemma_add_mod_noop(ii, 1, nn);
                if nn > 1 {
                    vstd::arithmetic::div_mod::lemma_small_mod(1, nn as nat);
                } else {
                    assert(((ii % nn) + 1) % nn == 0 && (ii + 1) % nn == 0) by (nonlinear_arith)
                        requires
                            nn == 1,
                    ;
                }
            }
            self.selected_plugin_index = next;
        }
    }

    /// Switches the selected plugin on or off, unless it is required.
    pub fn toggle_selected_plugin(&mut self)
        ensures
            final(self)@ == (AppStateView { plugins: final(self)@.plugins, ..old(self)@ }),
            final(self).plugins_spec().len() == old(self).plugins_spec().len(),
            forall|i: int|
                0 <= i < old(self).plugins_spec().len() ==> {
                    let before = old(self).plugins_spec()[i];
                    let after = #[trigger] final(self).plugins_spec()[i];
                    &&& after.name == before.name
                    &&& after.version == before.version
                    &&& after.description == before.description
                    &&& after.required == before.required
                    &&& after.enabled == (if i == old(self).selected_spec() && !before.required {
                        !before.enabled
                    } else {
                        before.enabled
                    })
                },
            final(self).selected_spec() == old(self).selected_spec(),
            final(self).logs_spec() == old(self).logs_spec(),
            final(self).wf() == old(self).wf(),
    {
        let index = self.selected_plugin_index;
        if index < self.available_plugins.len() {
            if !self.available_plugins[index].required {
                let mut p = self.available_plugins.remove(index);
                p.enabled = !p.enabled;
                self.available_plugins.insert(index, p);
            }
        }
    }

    /// The names of the enabled plugins, in order.
    pub fn enabled_plugin_names(&self) -> (r: Vec<String>)
        ensures
            r@.len() == enabled_names(self.plugins_spec()).len(),
            forall|i: int| 0 <= i < r@.len() ==> (#[trigger] r@[i])@ == enabled_names(self.plugins_spec())[i],
    {
        let mut r: Vec<String> = Vec::new();
        let mut i: usize = 0;
        while i < self.available_plugins.len()
            invariant
                i <= self.available_plugins@.len(),
                r@.len() == enabled_names(self.available_plugins@.take(i as int)).len(),
                forall|k: int|
                    0 <= k < r@.len() ==> (#[trigger] r@[k])@ == enabled_names(
                        self.available_plugins@.take(i as int),
                    )[k],
            decreases self.available_plugins.len() - i,
        {
            let ghost prev = r@;
            proof {
                let t = self.available_plugins@.take(i + 1);
                assert(t.drop_last() == self.available_plugins@.take(i as int));
                assert(t.last() == self.available_plugins@[i as int]);
            }
            if self.available_plugins[i].enabled {
                r.push(self.available_plugins[i].name.clone());
                proof {
                    assert forall|k: int| 0 <= k < r@.len() implies (#[trigger] r@[k])@
                        == enabled_names(self.available_plugins@.take(i + 1))[k] by {
                        if k < prev.len() {
                            assert(r@[k] == prev[k]);
                        }
                    }
                }
            }
            i += 1;
        }
        assert(self.available_plugins@.take(i as int) == self.available_plugins@);
        r
    }
}

/// How a duration is shown: seconds below a minute, minutes and seconds below an
/// hour, hours and minutes above.
pub open spec fn duration_text(seconds: int) -> Seq<char> {
    if seconds < 60 {
        signed_decimal(seconds) + "秒"@
    } else if seconds < 3600 {
        decimal((seconds / 60) as nat) + "分"@ + decimal((seconds % 60) as nat) + "秒"@
    } else {
        decimal((seconds / 3600) as nat) + "时"@ + decimal(((seconds % 3600) / 60) as nat) + "分"@
    }
}

/// Formats a duration given in seconds, e.g. `59秒`, `2分5秒`, `1时1分`.
pub fn format_duration(seconds: i64) -> (r: String)
    ensures
        r@ == duration_text(seconds as int),
{
    let mut r = String::new();
    if seconds < 60 {
        push_signed_decimal(&mut r, seconds);
        push_str(&mut r, "秒");
    } else if seconds < 3600 {
        crate::text::push_decimal(&mut r, (seconds / 60) as u64);
        push_str(&mut r, "分");
        crate::text::push_decimal(&mut r, (seconds % 60) as u64);
        push_str(&mut r, "秒");
    } else {
        crate::text::push_decimal(&mut r, (seconds / 3600) as u64);
        push_str(&mut r, "时");
        crate::text::push_decimal(&mut r, ((seconds % 3600) / 60) as u64);
        push_str(&mut r, "分");
    }
    r
}

} // verus!
