//! The workflow orchestrator: the decisions of the automatic run, of the analysis of
//! a named file, of a download and of a remote listing. Connecting, listing
//! directories and transferring files are the caller's part: each decision hands the
//! caller a request, and the caller answers with what came of it.

use vstd::prelude::*;
use crate::config::{copy_mappings, AnalyzerConfig, AnalyzerMapping, FileDiscoveryConfig};
use crate::discoverer::{
    auto_choice, discover_remote, remote_files, DiscovererError, DiscovererErrorView, FileDiscoverer,
    FileInfo,
};
use crate::remote::{join_path, joined_path, RemoteFileInfo, SshError};
use crate::selector::{enabled_mappings, first_match, sort_by_priority, PluginSelector};
use crate::text::{owned, push_str};
use crate::workflow::{
    empty_result, opt_chars_of, ResultView, WorkflowError, WorkflowErrorView, WorkflowResult,
    WorkflowStep, WorkflowStepView,
};

verus! {

/// The file name of a path (`Path::file_name`); none for a path that ends in `..` or
/// is a root.
pub uninterp spec fn path_file_name(path: Seq<char>) -> Option<Seq<char>>;

/// The last component of a path (`Path::file_name`, as text).
#[verifier::external_body]
fn file_name_of(path: &str) -> (r: Option<String>)
    ensures
        opt_chars_of(r) == path_file_name(path@),
{
    match std::path::Path::new(path).file_name() {
        Some(n) => Some(n.to_string_lossy().into_owned()),
        None => None,
    }
}

/// The file name of a path, or `unknown` when it has none.
pub open spec fn name_or_unknown(path: Seq<char>) -> Seq<char> {
    match path_file_name(path) {
        Some(n) => n,
        None => "unknown"@,
    }
}

/// What a run is for.
#[derive(Debug, Clone)]
pub enum Goal {
    /// Find the newest log, fetch it if it is remote, and choose its plugin.
    Auto,
    /// Analyse the named file, fetching it from the remote log directory when it is
    /// not here.
    WithFile { path: String },
    /// Download the named file from the remote log directory.
    DownloadOnly { name: String },
    /// List the remote log files that match the pattern.
    ListRemote { pattern: String },
}

/// A goal as plain values.
pub enum GoalView {
    Auto,
    WithFile { path: Seq<char> },
    DownloadOnly { name: Seq<char> },
    ListRemote { pattern: Seq<char> },
}

impl View for Goal {
    type V = GoalView;

    open spec fn view(&self) -> GoalView {
        match self {
            Goal::Auto => GoalView::Auto,
            Goal::WithFile { path } => GoalView::WithFile { path: path@ },
            Goal::DownloadOnly { name } => GoalView::DownloadOnly { name: name@ },
            Goal::ListRemote { pattern } => GoalView::ListRemote { pattern: pattern@ },
        }
    }
}

/// What a run waits for.
#[derive(Debug, Clone)]
pub enum Stage {
    /// The remote connection.
    Connecting,
    /// The local files that match the pattern.
    SearchingLocal { pattern: String },
    /// The remote files that match the pattern.
    SearchingRemote { pattern: String },
    /// The download of `remote`, a file named `name`, to `local`.
    Downloading { remote: String, name: String, local: String },
    /// The remote listing.
    Listing,
}

/// A stage as plain values.
pub enum StageView {
    Connecting,
    SearchingLocal { pattern: Seq<char> },
    SearchingRemote { pattern: Seq<char> },
    Downloading { remote: Seq<char>, name: Seq<char>, local: Seq<char> },
    Listing,
}

impl View for Stage {
    type V = StageView;

    open spec fn view(&self) -> StageView {
        match self {
            Stage::Connecting => StageView::Connecting,
            Stage::SearchingLocal { pattern } => StageView::SearchingLocal { pattern: pattern@ },
            Stage::SearchingRemote { pattern } => StageView::SearchingRemote { pattern: pattern@ },
            Stage::Downloading { remote, name, local } => StageView::Downloading {
                remote: remote@,
                name: name@,
                local: local@,
            },
            Stage::Listing => StageView::Listing,
        }
    }
}

/// A run in progress.
#[derive(Debug, Clone)]
pub struct Run {
    pub goal: Goal,
    pub stage: Stage,
    /// What was done so far.
    pub result: WorkflowResult,
}

/// A run as plain values.
pub struct RunView {
    pub goal: GoalView,
    pub stage: StageView,
    pub result: ResultView,
}

impl View for Run {
    type V = RunView;

    open spec fn view(&self) -> RunView {
        RunView { goal: self.goal@, stage: self.stage@, result: self.result@ }
    }
}

/// What the caller is asked to do.
#[derive(Debug, Clone)]
pub enum Request {
    /// Open the remote connection, then call `on_connected`.
    Connect,
    /// List the files of the local directory that match the pattern, then call
    /// `on_local_listing`.
    ListLocal { dir: String, pattern: String },
    /// List the files of the remote directory that match the pattern, then call
    /// `on_remote_listing`.
    ListRemote { dir: String, pattern: String },
    /// Create the local directory and download `remote` to `local` over the open
    /// connection, then call `on_downloaded`.
    Download { remote: String, local_dir: String, local: String },
}

/// A request as plain values.
pub enum RequestView {
    Connect,
    ListLocal { dir: Seq<char>, pattern: Seq<char> },
    ListRemote { dir: Seq<char>, pattern: Seq<char> },
    Download { remote: Seq<char>, local_dir: Seq<char>, local: Seq<char> },
}

impl View for Request {
    type V = RequestView;

    open spec fn view(&self) -> RequestView {
        match self {
            Request::Connect => RequestView::Connect,
            Request::ListLocal { dir, pattern } => RequestView::ListLocal { dir: dir@, pattern: pattern@ },
            Request::ListRemote { dir, pattern } => RequestView::ListRemote { dir: dir@, pattern: pattern@ },
            Request::Download { remote, local_dir, local } => RequestView::Download {
                remote: remote@,
                local_dir: local_dir@,
                local: local@,
            },
        }
    }
}

/// How a run ended, by goal: the analysis to run, the downloaded file, or the listed
/// files.
#[derive(Debug)]
pub enum Outcome {
    Analysis(Result<WorkflowResult, WorkflowError>),
    Downloaded(Result<String, WorkflowError>),
    Listed(Result<Vec<FileInfo>, WorkflowError>),
}

/// An outcome as plain values.
pub enum OutcomeView {
    Analysis(Result<ResultView, WorkflowErrorView>),
    Downloaded(Result<Seq<char>, WorkflowErrorView>),
    Listed(Result<Seq<FileInfo>, WorkflowErrorView>),
}

impl View for Outcome {
    type V = OutcomeView;

    open spec fn view(&self) -> OutcomeView {
        match self {
            Outcome::Analysis(r) => OutcomeView::Analysis(
                match r {
                    Ok(x) => Ok(x@),
                    Err(e) => Err(e@),
                },
            ),
            Outcome::Downloaded(r) => OutcomeView::Downloaded(
                match r {
                    Ok(x) => Ok(x@),
                    Err(e) => Err(e@),
                },
            ),
            Outcome::Listed(r) => OutcomeView::Listed(
                match r {
                    Ok(x) => Ok(x@),
                    Err(e) => Err(e@),
                },
            ),
        }
    }
}

/// The next move of a run: wait for the caller to do what is requested, or stop.
#[derive(Debug)]
pub enum Step {
    Pending(Run, Request),
    Done(Outcome),
}

/// A next move as plain values.
pub enum StepView {
    Pending(RunView, RequestView),
    Done(OutcomeView),
}

impl View for Step {
    type V = StepView;

    open spec fn view(&self) -> StepView {
        match self {
            Step::Pending(run, req) => StepView::Pending(run@, req@),
            Step::Done(o) => StepView::Done(o@),
        }
    }
}

/// Why a download failed: the local directory could not be made, or the transfer
/// failed (with the message of the error).
#[derive(Debug, Clone)]
pub enum TransferFailure {
    Io(String),
    Transfer(String),
}

/// The orchestrator's settings and connection state as plain values.
pub struct OrchestratorView {
    pub remote_enabled: bool,
    pub local_dir: Seq<char>,
    pub remote_dir: Seq<char>,
    /// The mappings in the order the plugin selector tries them.
    pub mappings: Seq<AnalyzerMapping>,
    pub discovery: FileDiscoveryConfig,
    /// Whether the remote connection is open.
    pub connected: bool,
}

// ---------------------------------------------------------------------------
// The decisions
// ---------------------------------------------------------------------------

/// The file pattern searched for: that of the first enabled mapping, else `*.log`.
pub open spec fn search_pattern(ms: Seq<AnalyzerMapping>) -> Seq<char> {
    if enabled_mappings(ms).len() > 0 {
        enabled_mappings(ms)[0].pattern@
    } else {
        "*.log"@
    }
}

/// `res` with one more step.
pub open spec fn with_step(res: ResultView, s: WorkflowStepView) -> ResultView {
    ResultView { steps: res.steps.push(s), ..res }
}

/// `res` with one more error.
pub open spec fn with_error(res: ResultView, e: Seq<char>) -> ResultView {
    ResultView { errors: res.errors.push(e), ..res }
}

/// The end of a run with an error, in the form its goal reports.
pub open spec fn fail(goal: GoalView, e: WorkflowErrorView) -> StepView {
    match goal {
        GoalView::DownloadOnly { .. } => StepView::Done(OutcomeView::Downloaded(Err(e))),
        GoalView::ListRemote { .. } => StepView::Done(OutcomeView::Listed(Err(e))),
        _ => StepView::Done(OutcomeView::Analysis(Err(e))),
    }
}

/// The end of a run that analyses the file at `path`, named `name`: the plugin
/// chosen for the name, or `NoPluginFound`. The automatic run records the choice as a
/// step.
pub open spec fn select(o: OrchestratorView, goal: GoalView, res: ResultView, name: Seq<char>, path: Seq<char>) -> StepView {
    match first_match(o.mappings, name) {
        None => StepView::Done(OutcomeView::Analysis(Err(WorkflowErrorView::NoPluginFound))),
        Some(i) => StepView::Done(
            OutcomeView::Analysis(
                Ok(
                    ResultView {
                        success: true,
                        steps: if goal is Auto {
                            res.steps.push(WorkflowStepView::SelectPlugin { file_name: name })
                        } else {
                            res.steps
                        },
                        selected_plugin: Some(o.mappings[i].plugin@),
                        analyzed_file: Some(path),
                        ..res
                    },
                ),
            ),
        ),
    }
}

/// The download of `remote`, named `name`, into the local log directory; it needs the
/// open connection.
pub open spec fn download(o: OrchestratorView, goal: GoalView, res: ResultView, remote: Seq<char>, name: Seq<char>) -> StepView {
    if !o.connected {
        fail(goal, WorkflowErrorView::ConnectionError("未建立连接"@))
    } else {
        let local = joined_path(o.local_dir, name);
        StepView::Pending(
            RunView { goal, stage: StageView::Downloading { remote, name, local }, result: res },
            RequestView::Download { remote, local_dir: o.local_dir, local },
        )
    }
}

/// The download of the file named `name` from the remote log directory.
pub open spec fn fetch(o: OrchestratorView, goal: GoalView, res: ResultView, name: Seq<char>) -> StepView {
    download(o, goal, res, joined_path(o.remote_dir, name), name)
}

/// The search of the local log directory, recorded as a step.
pub open spec fn begin_search(o: OrchestratorView, goal: GoalView, res: ResultView) -> StepView {
    let p = search_pattern(o.mappings);
    StepView::Pending(
        RunView {
            goal,
            stage: StageView::SearchingLocal { pattern: p },
            result: with_step(res, WorkflowStepView::DiscoverFiles { pattern: p }),
        },
        RequestView::ListLocal { dir: o.local_dir, pattern: p },
    )
}

/// What is done with the chosen file: a remote file is downloaded first.
pub open spec fn proceed(o: OrchestratorView, goal: GoalView, res: ResultView, f: FileInfo) -> StepView {
    if f.is_remote {
        download(o, goal, res, f.path@, f.name@)
    } else {
        select(o, goal, res, f.name@, f.path@)
    }
}

/// The first move of an automatic run: connect when remote access is on and no
/// connection is open, then search.
pub open spec fn auto_start(o: OrchestratorView) -> StepView {
    if o.remote_enabled {
        if o.connected {
            begin_search(o, GoalView::Auto, with_step(empty_result(), WorkflowStepView::ConnectRemote))
        } else {
            StepView::Pending(
                RunView { goal: GoalView::Auto, stage: StageView::Connecting, result: empty_result() },
                RequestView::Connect,
            )
        }
    } else {
        begin_search(o, GoalView::Auto, empty_result())
    }
}

/// The first move of the analysis of the file at `path`: a file that is here is
/// analysed; else it is fetched from the remote log directory by its name, when remote
/// access is on.
pub open spec fn with_file_start(o: OrchestratorView, path: Seq<char>, exists_locally: bool) -> StepView {
    let goal = GoalView::WithFile { path };
    if exists_locally {
        select(o, goal, empty_result(), name_or_unknown(path), path)
    } else if o.remote_enabled {
        if o.connected {
            fetch(o, goal, with_step(empty_result(), WorkflowStepView::ConnectRemote), name_or_unknown(path))
        } else {
            StepView::Pending(RunView { goal, stage: StageView::Connecting, result: empty_result() }, RequestView::Connect)
        }
    } else {
        StepView::Done(
            OutcomeView::Analysis(Err(WorkflowErrorView::DiscoveryError(DiscovererErrorView::NoFilesFound))),
        )
    }
}

/// The error of a goal that needs remote access when it is off.
pub open spec fn remote_disabled() -> WorkflowErrorView {
    WorkflowErrorView::ConfigError("远程功能未启用"@)
}

/// The first move of the download of the file named `name`.
pub open spec fn download_start(o: OrchestratorView, name: Seq<char>) -> StepView {
    let goal = GoalView::DownloadOnly { name };
    if !o.remote_enabled {
        fail(goal, remote_disabled())
    } else if o.connected {
        fetch(o, goal, empty_result(), name)
    } else {
        StepView::Pending(RunView { goal, stage: StageView::Connecting, result: empty_result() }, RequestView::Connect)
    }
}

/// The pattern of a listing: the one given, else `*.log`.
pub open spec fn listing_pattern(p: Option<Seq<char>>) -> Seq<char> {
    match p {
        Some(x) => x,
        None => "*.log"@,
    }
}

/// The first move of a remote listing.
pub open spec fn list_start(o: OrchestratorView, pattern: Option<Seq<char>>) -> StepView {
    let p = listing_pattern(pattern);
    let goal = GoalView::ListRemote { pattern: p };
    if !o.remote_enabled {
        fail(goal, remote_disabled())
    } else if o.connected {
        StepView::Pending(
            RunView { goal, stage: StageView::Listing, result: empty_result() },
            RequestView::ListRemote { dir: o.remote_dir, pattern: p },
        )
    } else {
        StepView::Pending(RunView { goal, stage: StageView::Connecting, result: empty_result() }, RequestView::Connect)
    }
}

/// What a run does once connected.
pub open spec fn after_connect(o: OrchestratorView, goal: GoalView, res: ResultView) -> StepView {
    match goal {
        GoalView::Auto => begin_search(o, goal, with_step(res, WorkflowStepView::ConnectRemote)),
        GoalView::WithFile { path } => fetch(o, goal, with_step(res, WorkflowStepView::ConnectRemote), name_or_unknown(path)),
        GoalView::DownloadOnly { name } => fetch(o, goal, res, name),
        GoalView::ListRemote { pattern } => StepView::Pending(
            RunView { goal, stage: StageView::Listing, result: res },
            RequestView::ListRemote { dir: o.remote_dir, pattern },
        ),
    }
}

/// What a run does when the connection failed with message `m`: an analysis ends
/// without success and records the error; a download or listing fails.
pub open spec fn connect_failed(goal: GoalView, res: ResultView, m: Seq<char>) -> StepView {
    match goal {
        GoalView::DownloadOnly { .. } => fail(goal, WorkflowErrorView::ConnectionError(m)),
        GoalView::ListRemote { .. } => fail(goal, WorkflowErrorView::ConnectionError(m)),
        _ => StepView::Done(OutcomeView::Analysis(Ok(with_error(res, "远程连接失败: 连接失败: "@ + m)))),
    }
}

/// The files of a remote listing, or the discovery error.
pub open spec fn remote_found(listed: Result<Seq<RemoteFileInfo>, SshError>) -> Result<Seq<FileInfo>, DiscovererErrorView> {
    match listed {
        Err(e) => Err(DiscovererErrorView::RemoteError(e.message_spec())),
        Ok(fs) => if fs.len() == 0 {
            Err(DiscovererErrorView::NoFilesFound)
        } else {
            Ok(remote_files(fs))
        },
    }
}

/// The listed remote files as plain values.
pub open spec fn listing_view(listed: Result<Vec<RemoteFileInfo>, SshError>) -> Result<Seq<RemoteFileInfo>, SshError> {
    match listed {
        Ok(v) => Ok(v@),
        Err(e) => Err(e),
    }
}

/// What a run does with a local listing: the file the discoverer chooses, else the
/// remote search when a connection is open, else `NoFilesFound`.
pub open spec fn after_local_listing(
    o: OrchestratorView,
    goal: GoalView,
    res: ResultView,
    pattern: Seq<char>,
    found: Result<Seq<FileInfo>, DiscovererError>,
) -> StepView {
    let choice = match found {
        Ok(fs) => auto_choice(o.discovery, fs),
        Err(_) => None,
    };
    match choice {
        Some(f) => proceed(o, goal, res, f),
        None => if o.remote_enabled && o.connected {
            StepView::Pending(
                RunView { goal, stage: StageView::SearchingRemote { pattern }, result: res },
                RequestView::ListRemote { dir: o.remote_dir, pattern },
            )
        } else {
            fail(goal, WorkflowErrorView::DiscoveryError(DiscovererErrorView::NoFilesFound))
        },
    }
}

/// What a run does with a remote listing: a listing run ends with the files; a
/// search goes on with the file the discoverer chooses, or fails.
pub open spec fn after_remote_listing(
    o: OrchestratorView,
    goal: GoalView,
    res: ResultView,
    searching: bool,
    listed: Result<Seq<RemoteFileInfo>, SshError>,
) -> StepView {
    match remote_found(listed) {
        Err(e) => fail(goal, WorkflowErrorView::DiscoveryError(e)),
        Ok(files) => if searching {
            match auto_choice(o.discovery, files) {
                Some(f) => proceed(o, goal, res, f),
                None => fail(goal, WorkflowErrorView::DiscoveryError(DiscovererErrorView::NoFilesFound)),
            }
        } else {
            StepView::Done(OutcomeView::Listed(Ok(files)))
        },
    }
}

/// What a run does once `remote`, named `name`, is downloaded to `local`: the step is
/// recorded and the analysis chooses its plugin, or the download ends.
pub open spec fn after_download(
    o: OrchestratorView,
    goal: GoalView,
    res: ResultView,
    remote: Seq<char>,
    name: Seq<char>,
    local: Seq<char>,
) -> StepView {
    let res2 = with_step(res, WorkflowStepView::DownloadFile { remote, local });
    match goal {
        GoalView::Auto => select(o, goal, res2, name, local),
        GoalView::WithFile { .. } => select(o, goal, res2, name_or_unknown(local), local),
        _ => StepView::Done(OutcomeView::Downloaded(Ok(local))),
    }
}

/// What a run does when the download failed; the connection is lost with it.
pub open spec fn download_failed(goal: GoalView, f: TransferFailure) -> StepView {
    match f {
        TransferFailure::Io(m) => fail(goal, WorkflowErrorView::IoError(m@)),
        TransferFailure::Transfer(m) => fail(goal, WorkflowErrorView::DownloadError(m@)),
    }
}

// ---------------------------------------------------------------------------
// The orchestrator
// ---------------------------------------------------------------------------

/// Runs the workflows over a configuration; it remembers whether the caller holds an
/// open remote connection.
pub struct WorkflowOrchestrator {
    config: AnalyzerConfig,
    discoverer: FileDiscoverer,
    selector: PluginSelector,
    connected: bool,
}

impl View for WorkflowOrchestrator {
    type V = OrchestratorView;

    closed spec fn view(&self) -> OrchestratorView {
        OrchestratorView {
            remote_enabled: self.config.remote.enabled,
            local_dir: self.config.local.log_dir@,
            remote_dir: self.config.remote.log_dir@,
            mappings: self.selector.mappings_spec(),
            discovery: self.discoverer.cfg(),
            connected: self.connected,
        }
    }
}

impl WorkflowOrchestrator {
    /// The configuration it runs over.
    pub closed spec fn cfg(&self) -> AnalyzerConfig {
        self.config
    }

    /// An orchestrator over the configuration, with no connection open.
    pub fn new(config: AnalyzerConfig) -> (r: Result<Self, WorkflowError>)
        ensures
            r matches Ok(o) && o.cfg() == config && o@ == (OrchestratorView {
                remote_enabled: config.remote.enabled,
                local_dir: config.local.log_dir@,
                remote_dir: config.remote.log_dir@,
                mappings: sort_by_priority(config.analyzers@),
                discovery: config.file_discovery,
                connected: false,
            }),
    {
        let d = &config.file_discovery;
        let discoverer = FileDiscoverer::new(
            FileDiscoveryConfig { sort_by: d.sort_by, sort_order: d.sort_order, auto_select: d.auto_select },
        );
        let selector = PluginSelector::new(copy_mappings(&config.analyzers));
        Ok(WorkflowOrchestrator { config, discoverer, selector, connected: false })
    }

    /// The plugin selector.
    pub fn selector(&self) -> (r: &PluginSelector)
        ensures
            r.mappings_spec() == self@.mappings,
    {
        &self.selector
    }

    /// The configuration.
    pub fn config(&self) -> (r: &AnalyzerConfig)
        ensures
            *r == self.cfg(),
    {
        &self.config
    }

    /// Whether a remote connection is open.
    pub fn is_connected(&self) -> (r: bool)
        ensures
            r == self@.connected,
    {
        self.connected
    }

    fn fail_with(goal: Goal, e: WorkflowError) -> (r: Step)
        ensures
            r@ == fail(goal@, e@),
    {
        match goal {
            Goal::DownloadOnly { .. } => Step::Done(Outcome::Downloaded(Err(e))),
            Goal::ListRemote { .. } => Step::Done(Outcome::Listed(Err(e))),
            _ => Step::Done(Outcome::Analysis(Err(e))),
        }
    }

    fn select_for(&self, goal: Goal, res: WorkflowResult, name: String, path: String) -> (r: Step)
        ensures
            r@ == select(self@, goal@, res@, name@, path@),
    {
        match self.selector.select_plugin(name.as_str()) {
            None => Step::Done(Outcome::Analysis(Err(WorkflowError::NoPluginFound))),
            Some(m) => {
                let mut res = res;
                res.selected_plugin = Some(m.plugin.clone());
                if let Goal::Auto = goal {
                    res.add_step(WorkflowStep::SelectPlugin { file_name: name });
                }
                res.analyzed_file = Some(path);
                res.success = true;
                Step::Done(Outcome::Analysis(Ok(res)))
            },
        }
    }

    fn download_for(&self, goal: Goal, res: WorkflowResult, remote: String, name: String) -> (r: Step)
        ensures
            r@ == download(self@, goal@, res@, remote@, name@),
    {
        if !self.connected {
            return Self::fail_with(goal, WorkflowError::ConnectionError(owned("未建立连接")));
        }
        let local = join_path(self.config.local.log_dir.as_str(), name.as_str());
        let request = Request::Download {
            remote: remote.clone(),
            local_dir: self.config.local.log_dir.clone(),
            local: local.clone(),
        };
        Step::Pending(Run { goal, stage: Stage::Downloading { remote, name, local }, result: res }, request)
    }

    fn fetch_for(&self, goal: Goal, res: WorkflowResult, name: String) -> (r: Step)
        ensures
            r@ == fetch(self@, goal@, res@, name@),
    {
        let remote = join_path(self.config.remote.log_dir.as_str(), name.as_str());
        self.download_for(goal, res, remote, name)
    }

    fn search_pattern_of(&self) -> (r: String)
        ensures
            r@ == search_pattern(self@.mappings),
    {
        let enabled = self.selector.list_enabled();
        if enabled.len() > 0 {
            enabled[0].pattern.clone()
        } else {
            owned("*.log")
        }
    }

    fn begin_search_for(&self, goal: Goal, res: WorkflowResult) -> (r: Step)
        ensures
            r@ == begin_search(self@, goal@, res@),
    {
        let pattern = self.search_pattern_of();
        let mut res = res;
        res.add_step(WorkflowStep::DiscoverFiles { pattern: pattern.clone() });
        let request = Request::ListLocal { dir: self.config.local.log_dir.clone(), pattern: pattern.clone() };
        Step::Pending(Run { goal, stage: Stage::SearchingLocal { pattern }, result: res }, request)
    }

    fn proceed_with(&self, goal: Goal, res: WorkflowResult, f: FileInfo) -> (r: Step)
        ensures
            r@ == proceed(self@, goal@, res@, f),
    {
        if f.is_remote {
            self.download_for(goal, res, f.path, f.name)
        } else {
            self.select_for(goal, res, f.name, f.path)
        }
    }

    /// The first move of the automatic run (see `auto_start`).
    pub fn run_auto(&self) -> (r: Step)
        ensures
            r@ == auto_start(self@),
    {
        let res = WorkflowResult::new();
        if self.config.remote.enabled {
            if self.connected {
                let mut res = res;
                res.add_step(WorkflowStep::ConnectRemote);
                self.begin_search_for(Goal::Auto, res)
            } else {
                Step::Pending(Run { goal: Goal::Auto, stage: Stage::Connecting, result: res }, Request::Connect)
            }
        } else {
            self.begin_search_for(Goal::Auto, res)
        }
    }

    /// The first move of the analysis of the file at `file_path`, which the caller
    /// found here or not (see `with_file_start`).
    pub fn run_with_file(&self, file_path: &str, exists_locally: bool) -> (r: Step)
        ensures
            r@ == with_file_start(self@, file_path@, exists_locally),
    {
        let goal = Goal::WithFile { path: owned(file_path) };
        let res = WorkflowResult::new();
        if exists_locally {
            let name = match file_name_of(file_path) {
                Some(n) => n,
                None => owned("unknown"),
            };
            self.select_for(goal, res, name, owned(file_path))
        } else if self.config.remote.enabled {
            if self.connected {
                let mut res = res;
                res.add_step(WorkflowStep::ConnectRemote);
                let name = match file_name_of(file_path) {
                    Some(n) => n,
                    None => owned("unknown"),
                };
                self.fetch_for(goal, res, name)
            } else {
                Step::Pending(Run { goal, stage: Stage::Connecting, result: res }, Request::Connect)
            }
        } else {
            Step::Done(Outcome::Analysis(Err(WorkflowError::DiscoveryError(DiscovererError::NoFilesFound))))
        }
    }

    /// The first move of the download of the remote file named `file_name` (see
    /// `download_start`).
    pub fn download_only(&self, file_name: &str) -> (r: Step)
        ensures
            r@ == download_start(self@, file_name@),
    {
        let goal = Goal::DownloadOnly { name: owned(file_name) };
        if !self.config.remote.enabled {
            return Self::fail_with(goal, WorkflowError::ConfigError(owned("远程功能未启用")));
        }
        let res = WorkflowResult::new();
        if self.connected {
            self.fetch_for(goal, res, owned(file_name))
        } else {
            Step::Pending(Run { goal, stage: Stage::Connecting, result: res }, Request::Connect)
        }
    }

    /// The first move of the listing of the remote log files that match the pattern,
    /// `*.log` when none is given (see `list_start`).
    pub fn list_remote_logs(&self, pattern: Option<&str>) -> (r: Step)
        ensures
            r@ == list_start(
                self@,
                match pattern {
                    Some(p) => Some(p@),
                    None => None,
                },
            ),
    {
        let p = match pattern {
            Some(p) => owned(p),
            None => owned("*.log"),
        };
        let goal = Goal::ListRemote { pattern: p.clone() };
        if !self.config.remote.enabled {
            return Self::fail_with(goal, WorkflowError::ConfigError(owned("远程功能未启用")));
        }
        let res = WorkflowResult::new();
        if self.connected {
            let request = Request::ListRemote { dir: self.config.remote.log_dir.clone(), pattern: p };
            Step::Pending(Run { goal, stage: Stage::Listing, result: res }, request)
        } else {
            Step::Pending(Run { goal, stage: Stage::Connecting, result: res }, Request::Connect)
        }
    }

    /// Goes on once the caller tried to connect: `Ok` when the connection is open, else
    /// the message of the error (see `after_connect` and `connect_failed`).
    pub fn on_connected(&mut self, run: Run, outcome: Result<(), String>) -> (r: Step)
        requires
            run.stage is Connecting,
        ensures
            final(self)@ == (OrchestratorView { connected: old(self)@.connected || outcome is Ok, ..old(self)@ }),
            final(self).cfg() == old(self).cfg(),
            r@ == match outcome {
                Ok(()) => after_connect(final(self)@, run.goal@, run.result@),
                Err(m) => connect_failed(run.goal@, run.result@, m@),
            },
    {
        let Run { goal, stage: _, result } = run;
        match outcome {
            Err(m) => match goal {
                Goal::DownloadOnly { .. } => Self::fail_with(goal, WorkflowError::ConnectionError(m)),
                Goal::ListRemote { .. } => Self::fail_with(goal, WorkflowError::ConnectionError(m)),
                _ => {
                    let mut text = owned("远程连接失败: 连接失败: ");
                    push_str(&mut text, m.as_str());
                    let mut res = result;
                    res.add_error(text);
                    Step::Done(Outcome::Analysis(Ok(res)))
                },
            },
            Ok(()) => {
                self.connected = true;
                match goal {
                    Goal::Auto => {
                        let mut res = result;
                        res.add_step(WorkflowStep::ConnectRemote);
                        self.begin_search_for(Goal::Auto, res)
                    },
                    Goal::WithFile { path } => {
                        let mut res = result;
                        res.add_step(WorkflowStep::ConnectRemote);
                        let name = match file_name_of(path.as_str()) {
                            Some(n) => n,
                            None => owned("unknown"),
                        };
                        self.fetch_for(Goal::WithFile { path }, res, name)
                    },
                    Goal::DownloadOnly { name } => {
                        let n = name.clone();
                        self.fetch_for(Goal::DownloadOnly { name }, result, n)
                    },
                    Goal::ListRemote { pattern } => {
                        let request = Request::ListRemote {
                            dir: self.config.remote.log_dir.clone(),
                            pattern: pattern.clone(),
                        };
                        Step::Pending(
                            Run { goal: Goal::ListRemote { pattern }, stage: Stage::Listing, result },
                            request,
                        )
                    },
                }
            },
        }
    }

    /// Goes on with the local files that match the searched pattern (see
    /// `after_local_listing`).
    pub fn on_local_listing(&self, run: Run, found: Result<Vec<FileInfo>, DiscovererError>) -> (r: Step)
        requires
            run.stage is SearchingLocal,
        ensures
            r@ == after_local_listing(
                self@,
                run.goal@,
                run.result@,
                run.stage->SearchingLocal_pattern@,
                match found {
                    Ok(v) => Ok(v@),
                    Err(e) => Err(e),
                },
            ),
    {
        let Run { goal, stage, result } = run;
        let pattern = match stage {
            Stage::SearchingLocal { pattern } => pattern,
            _ => owned("*.log"),
        };
        match self.discoverer.discover_and_select_local(found) {
            Ok(f) => self.proceed_with(goal, result, f),
            Err(_) => {
                if self.config.remote.enabled && self.connected {
                    let request = Request::ListRemote {
                        dir: self.config.remote.log_dir.clone(),
                        pattern: pattern.clone(),
                    };
                    Step::Pending(Run { goal, stage: Stage::SearchingRemote { pattern }, result }, request)
                } else {
                    Self::fail_with(goal, WorkflowError::DiscoveryError(DiscovererError::NoFilesFound))
                }
            },
        }
    }

    /// Goes on with the remote files that the listing found (see
    /// `after_remote_listing`).
    pub fn on_remote_listing(&self, run: Run, listed: Result<Vec<RemoteFileInfo>, SshError>) -> (r: Step)
        requires
            run.stage is SearchingRemote || run.stage is Listing,
        ensures
            r@ == after_remote_listing(
                self@,
                run.goal@,
                run.result@,
                run.stage is SearchingRemote,
                listing_view(listed),
            ),
    {
        let Run { goal, stage, result } = run;
        let searching = match stage {
            Stage::SearchingRemote { .. } => true,
            _ => false,
        };
        match discover_remote(listed) {
            Err(e) => Self::fail_with(goal, WorkflowError::DiscoveryError(e)),
            Ok(files) => {
                if searching {
                    match self.discoverer.discover_and_select_remote(Ok(files)) {
                        Ok(f) => self.proceed_with(goal, result, f),
                        Err(_) => Self::fail_with(
                            goal,
                            WorkflowError::DiscoveryError(DiscovererError::NoFilesFound),
                        ),
                    }
                } else {
                    Step::Done(Outcome::Listed(Ok(files)))
                }
            },
        }
    }

    /// Goes on once the caller tried the requested download: `Ok` when the file is
    /// here; a failure also loses the connection (see `after_download` and
    /// `download_failed`).
    pub fn on_downloaded(&mut self, run: Run, outcome: Result<(), TransferFailure>) -> (r: Step)
        requires
            run.stage is Downloading,
        ensures
            final(self)@ == (OrchestratorView { connected: old(self)@.connected && outcome is Ok, ..old(self)@ }),
            final(self).cfg() == old(self).cfg(),
            r@ == match outcome {
                Ok(()) => after_download(
                    final(self)@,
                    run.goal@,
                    run.result@,
                    run.stage->Downloading_remote@,
                    run.stage->Downloading_name@,
                    run.stage->Downloading_local@,
                ),
                Err(f) => download_failed(run.goal@, f),
            },
    {
        let Run { goal, stage, result } = run;
        match outcome {
            Err(f) => {
                self.connected = false;
                match f {
                    TransferFailure::Io(m) => Self::fail_with(goal, WorkflowError::IoError(m)),
                    TransferFailure::Transfer(m) => Self::fail_with(goal, WorkflowError::DownloadError(m)),
                }
            },
            Ok(()) => {
                let (remote, name, local) = match stage {
                    Stage::Downloading { remote, name, local } => (remote, name, local),
                    _ => (String::new(), String::new(), String::new()),
                };
                let mut res = result;
                res.add_step(WorkflowStep::DownloadFile { remote, local: local.clone() });
                match goal {
                    Goal::Auto => self.select_for(Goal::Auto, res, name, local),
                    Goal::WithFile { path } => {
                        let n = match file_name_of(local.as_str()) {
                            Some(n) => n,
                            None => owned("unknown"),
                        };
                        self.select_for(Goal::WithFile { path }, res, n, local)
                    },
                    _ => Step::Done(Outcome::Downloaded(Ok(local))),
                }
            },
        }
    }
}


/// With remote access off and no connection open, no run asks for remote work: the
/// automatic run lists the local directory and ends with what it finds there, the
/// analysis of a named file ends at once, and a download or a remote listing fails
/// with `远程功能未启用`.
pub proof fn lemma_remote_off_stays_local(
    o: OrchestratorView,
    res: ResultView,
    pattern: Seq<char>,
    found: Result<Seq<FileInfo>, DiscovererError>,
    path: Seq<char>,
    exists_locally: bool,
    name: Seq<char>,
    list_pattern: Option<Seq<char>>,
)
    requires
        !o.remote_enabled,
        !o.connected,
    ensures
        auto_start(o) matches StepView::Pending(_, RequestView::ListLocal { .. }),
        after_local_listing(o, GoalView::Auto, res, pattern, found) is Done,
        with_file_start(o, path, exists_locally) is Done,
        download_start(o, name) == fail(GoalView::DownloadOnly { name }, remote_disabled()),
        list_start(o, list_pattern) == fail(
            GoalView::ListRemote { pattern: listing_pattern(list_pattern) },
            remote_disabled(),
        ),
{
}

} // verus!
