//! Bookkeeping of a workflow run: its errors, the steps it went through and its
//! result.

use vstd::prelude::*;
use crate::discoverer::{DiscovererError, DiscovererErrorView};
use crate::text::{owned, push_str};

verus! {

/// Errors of a workflow run.
#[derive(Debug, Clone)]
pub enum WorkflowError {
    ConfigError(String),
    ConnectionError(String),
    DiscoveryError(DiscovererError),
    DownloadError(String),
    NoPluginFound,
    PluginLoadError(String),
    AnalysisError(String),
    IoError(String),
}

impl WorkflowError {
    /// The text of the error.
    pub open spec fn message_spec(&self) -> Seq<char> {
        match self {
            WorkflowError::ConfigError(m) => "配置错误: "@ + m@,
            WorkflowError::ConnectionError(m) => "连接失败: "@ + m@,
            WorkflowError::DiscoveryError(e) => "文件发现失败: "@ + e.message_spec(),
            WorkflowError::DownloadError(m) => "下载失败: "@ + m@,
            WorkflowError::NoPluginFound => "没有找到匹配的插件"@,
            WorkflowError::PluginLoadError(m) => "插件加载失败: "@ + m@,
            WorkflowError::AnalysisError(m) => "分析失败: "@ + m@,
            WorkflowError::IoError(m) => "IO 错误: "@ + m@,
        }
    }

    /// The text of the error, e.g. `连接失败: timeout`.
    pub fn message(&self) -> (r: String)
        ensures
            r@ == self.message_spec(),
    {
        match self {
            WorkflowError::ConfigError(m) => prefixed("配置错误: ", m.as_str()),
            WorkflowError::ConnectionError(m) => prefixed("连接失败: ", m.as_str()),
            WorkflowError::DiscoveryError(e) => {
                let t = e.message();
                prefixed("文件发现失败: ", t.as_str())
            },
            WorkflowError::DownloadError(m) => prefixed("下载失败: ", m.as_str()),
            WorkflowError::NoPluginFound => owned("没有找到匹配的插件"),
            WorkflowError::PluginLoadError(m) => prefixed("插件加载失败: ", m.as_str()),
            WorkflowError::AnalysisError(m) => prefixed("分析失败: ", m.as_str()),
            WorkflowError::IoError(m) => prefixed("IO 错误: ", m.as_str()),
        }
    }
}

/// A workflow error as plain values.
pub enum WorkflowErrorView {
    ConfigError(Seq<char>),
    ConnectionError(Seq<char>),
    DiscoveryError(DiscovererErrorView),
    DownloadError(Seq<char>),
    NoPluginFound,
    PluginLoadError(Seq<char>),
    AnalysisError(Seq<char>),
    IoError(Seq<char>),
}

impl View for WorkflowError {
    type V = WorkflowErrorView;

    open spec fn view(&self) -> WorkflowErrorView {
        match self {
            WorkflowError::ConfigError(m) => WorkflowErrorView::ConfigError(m@),
            WorkflowError::ConnectionError(m) => WorkflowErrorView::ConnectionError(m@),
            WorkflowError::DiscoveryError(e) => WorkflowErrorView::DiscoveryError(e@),
            WorkflowError::DownloadError(m) => WorkflowErrorView::DownloadError(m@),
            WorkflowError::NoPluginFound => WorkflowErrorView::NoPluginFound,
            WorkflowError::PluginLoadError(m) => WorkflowErrorView::PluginLoadError(m@),
            WorkflowError::AnalysisError(m) => WorkflowErrorView::AnalysisError(m@),
            WorkflowError::IoError(m) => WorkflowErrorView::IoError(m@),
        }
    }
}

/// `head` followed by `tail`.
fn prefixed(head: &str, tail: &str) -> (r: String)
    ensures
        r@ == head@ + tail@,
{
    let mut s = owned(head);
    push_str(&mut s, tail);
    s
}

/// A step of a workflow run, kept to report what was done.
#[derive(Debug, Clone)]
pub enum WorkflowStep {
    ConnectRemote,
    DiscoverFiles { pattern: String },
    DownloadFile { remote: String, local: String },
    SelectPlugin { file_name: String },
    LoadPlugin { plugin_name: String },
    RunAnalysis { input: String, output: String },
    Cleanup,
}

/// A step as plain values.
pub enum WorkflowStepView {
    ConnectRemote,
    DiscoverFiles { pattern: Seq<char> },
    DownloadFile { remote: Seq<char>, local: Seq<char> },
    SelectPlugin { file_name: Seq<char> },
    LoadPlugin { plugin_name: Seq<char> },
    RunAnalysis { input: Seq<char>, output: Seq<char> },
    Cleanup,
}

impl View for WorkflowStep {
    type V = WorkflowStepView;

    open spec fn view(&self) -> WorkflowStepView {
        match self {
            WorkflowStep::ConnectRemote => WorkflowStepView::ConnectRemote,
            WorkflowStep::DiscoverFiles { pattern } => WorkflowStepView::DiscoverFiles { pattern: pattern@ },
            WorkflowStep::DownloadFile { remote, local } => WorkflowStepView::DownloadFile { remote: remote@, local: local@ },
            WorkflowStep::SelectPlugin { file_name } => WorkflowStepView::SelectPlugin { file_name: file_name@ },
            WorkflowStep::LoadPlugin { plugin_name } => WorkflowStepView::LoadPlugin { plugin_name: plugin_name@ },
            WorkflowStep::RunAnalysis { input, output } => WorkflowStepView::RunAnalysis { input: input@, output: output@ },
            WorkflowStep::Cleanup => WorkflowStepView::Cleanup,
        }
    }
}

/// The result of a workflow run.
#[derive(Debug, Clone)]
pub struct WorkflowResult {
    pub success: bool,
    pub steps_completed: Vec<WorkflowStep>,
    pub output_files: Vec<String>,
    pub errors: Vec<String>,
    pub selected_plugin: Option<String>,
    pub analyzed_file: Option<String>,
}

/// A result as plain values.
pub struct ResultView {
    pub success: bool,
    pub steps: Seq<WorkflowStepView>,
    pub output_files: Seq<Seq<char>>,
    pub errors: Seq<Seq<char>>,
    pub selected_plugin: Option<Seq<char>>,
    pub analyzed_file: Option<Seq<char>>,
}

/// The characters of an optional string.
pub open spec fn opt_chars_of(o: Option<String>) -> Option<Seq<char>> {
    match o {
        Some(s) => Some(s@),
        None => None,
    }
}

/// The view of a result with nothing done yet.
pub open spec fn empty_result() -> ResultView {
    ResultView {
        success: false,
        steps: Seq::empty(),
        output_files: Seq::empty(),
        errors: Seq::empty(),
        selected_plugin: None,
        analyzed_file: None,
    }
}

impl View for WorkflowResult {
    type V = ResultView;

    open spec fn view(&self) -> ResultView {
        ResultView {
            success: self.success,
            steps: self.steps_completed@.map_values(|s: WorkflowStep| s@),
            output_files: self.output_files@.map_values(|s: String| s@),
            errors: self.errors@.map_values(|s: String| s@),
            selected_plugin: opt_chars_of(self.selected_plugin),
            analyzed_file: opt_chars_of(self.analyzed_file),
        }
    }
}

impl WorkflowResult {
    /// A result with nothing done yet: not successful, no steps, files or errors.
    pub fn new() -> (r: Self)
        ensures
            !r.success,
            r.steps_completed@.len() == 0,
            r.output_files@.len() == 0,
            r.errors@.len() == 0,
            r.selected_plugin is None,
            r.analyzed_file is None,
            r@ == empty_result(),
    {
        let r = WorkflowResult {
            success: false,
            steps_completed: Vec::new(),
            output_files: Vec::new(),
            errors: Vec::new(),
            selected_plugin: None,
            analyzed_file: None,
        };
        assert(r@.steps =~= Seq::<WorkflowStepView>::empty());
        assert(r@.output_files =~= Seq::<Seq<char>>::empty());
        assert(r@.errors =~= Seq::<Seq<char>>::empty());
        r
    }

    /// Records a completed step after the earlier ones.
    pub fn add_step(&mut self, step: WorkflowStep)
        ensures
            final(self).steps_completed@ == old(self).steps_completed@.push(step),
            final(self)@ == (ResultView { steps: old(self)@.steps.push(step@), ..old(self)@ }),
            final(self).success == old(self).success,
            final(self).output_files@ == old(self).output_files@,
            final(self).errors@ == old(self).errors@,
            final(self).selected_plugin == old(self).selected_plugin,
            final(self).analyzed_file == old(self).analyzed_file,
    {
        let ghost before = self@;
        self.steps_completed.push(step);
        assert(self@.steps =~= before.steps.push(step@));
    }

    /// Records an error after the earlier ones.
    pub fn add_error(&mut self, error: String)
        ensures
            final(self).errors@ == old(self).errors@.push(error),
            final(self)@ == (ResultView { errors: old(self)@.errors.push(error@), ..old(self)@ }),
            final(self).success == old(self).success,
            final(self).steps_completed@ == old(self).steps_completed@,
            final(self).output_files@ == old(self).output_files@,
            final(self).selected_plugin == old(self).selected_plugin,
            final(self).analyzed_file == old(self).analyzed_file,
    {
        let ghost before = self@;
        self.errors.push(error);
        assert(self@.errors =~= before.errors.push(error@));
    }
}

} // verus!
